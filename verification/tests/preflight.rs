use mana_panel_backend::services::docker::{ContainerInfo, PortBinding};
use mana_panel_backend::services::preflight::{
    PortConflict, PortPreflight, PreflightResult, PreflightStep, ProbeOutcome,
};
use mana_panel_backend::strmap::StringMap;

fn binding(private_port: u16, public_port: Option<u16>) -> PortBinding {
    PortBinding { ip: "0.0.0.0".to_string(), private_port, public_port, port_type: "tcp".to_string() }
}

fn container(id: &str, names: &[&str], image: &str, ports: Vec<PortBinding>) -> ContainerInfo {
    ContainerInfo {
        id: id.to_string(),
        names: names.iter().map(|n| n.to_string()).collect(),
        image: image.to_string(),
        image_id: String::new(),
        command: String::new(),
        created: 0,
        state: "running".to_string(),
        status: "Up".to_string(),
        ports,
        labels: StringMap::new(),
        size_rw: None,
        size_root_fs: None,
    }
}

fn run_all(mut run: PortPreflight, running: &Vec<ContainerInfo>, host: &dyn Fn(u16) -> ProbeOutcome) -> (PreflightResult, Vec<u16>, bool) {
    let mut probed = Vec::new();
    let mut listed = false;
    loop {
        match run.step() {
            PreflightStep::ListRunning => {
                listed = true;
                run.containers(running);
            }
            PreflightStep::Probe(port) => {
                probed.push(port);
                run.probed(host(port));
            }
            PreflightStep::Done => break,
        }
    }
    (run.finish().unwrap(), probed, listed)
}

#[test]
fn free_ports_pass() {
    let mut run = PortPreflight::new(&[80, 443], None);
    assert_eq!(run.step(), PreflightStep::ListRunning);
    run.containers(&Vec::new());
    assert_eq!(run.step(), PreflightStep::Probe(80));
    run.probed(ProbeOutcome::Free);
    assert_eq!(run.step(), PreflightStep::Probe(443));
    run.probed(ProbeOutcome::Free);
    assert_eq!(run.step(), PreflightStep::Done);
    let result = run.finish().unwrap();
    assert_eq!(
        result,
        PreflightResult { ok: true, requested_ports: vec![80, 443], conflicts: vec![], warnings: vec![] }
    );
}

#[test]
fn container_that_publishes_the_port_is_the_conflict() {
    let running = vec![container("0123456789abcdef", &["web1"], "nginx:latest", vec![binding(80, Some(8080))])];
    let (result, probed, listed) =
        run_all(PortPreflight::new(&[8080], None), &running, &|_| ProbeOutcome::Free);
    assert!(listed);
    assert!(probed.is_empty());
    assert!(!result.ok);
    assert_eq!(result.requested_ports, vec![8080]);
    assert_eq!(
        result.conflicts,
        vec![PortConflict {
            port: 8080,
            occupied_by: "web1".to_string(),
            occupant_type: "container".to_string(),
            occupant_container_id: Some("0123456789abcdef".to_string()),
            occupant_image: Some("nginx:latest".to_string()),
            suggestion: "Port 8080 is already used by container 'web1'. Stop it first, or configure a different listening port.".to_string(),
        }]
    );
    assert!(result.warnings.is_empty());
}

#[test]
fn host_process_that_holds_the_port_is_the_conflict() {
    let (result, probed, _) =
        run_all(PortPreflight::new(&[5432], None), &vec![], &|_| ProbeOutcome::AddrInUse);
    assert_eq!(probed, vec![5432]);
    assert!(!result.ok);
    assert_eq!(
        result.conflicts,
        vec![PortConflict {
            port: 5432,
            occupied_by: "host process".to_string(),
            occupant_type: "host-process".to_string(),
            occupant_container_id: None,
            occupant_image: None,
            suggestion: "Port 5432 is occupied by a host process. Stop that process or choose a different port.".to_string(),
        }]
    );
}

#[test]
fn free_port_stays_free_on_a_second_preflight() {
    for _ in 0..2 {
        let (result, probed, _) =
            run_all(PortPreflight::new(&[9000], None), &vec![], &|_| ProbeOutcome::Free);
        assert_eq!(probed, vec![9000]);
        assert!(result.ok);
        assert!(result.conflicts.is_empty());
    }
}

#[test]
fn nothing_requested_is_done_at_once() {
    let run = PortPreflight::new(&[], None);
    assert_eq!(run.step(), PreflightStep::Done);
    let result = run.finish().unwrap();
    assert_eq!(
        result,
        PreflightResult { ok: true, requested_ports: vec![], conflicts: vec![], warnings: vec![] }
    );
    let (result, probed, listed) =
        run_all(PortPreflight::new(&[0, 0], Some("abc")), &vec![], &|_| ProbeOutcome::AddrInUse);
    assert!(!listed);
    assert!(probed.is_empty());
    assert!(result.ok);
    assert!(result.requested_ports.is_empty());
}

#[test]
fn zeros_and_repetitions_are_dropped() {
    let (result, probed, _) = run_all(
        PortPreflight::new(&[0, 443, 80, 443, 0, 80, 65535], None),
        &vec![],
        &|_| ProbeOutcome::Free,
    );
    assert_eq!(result.requested_ports, vec![443, 80, 65535]);
    assert_eq!(probed, vec![443, 80, 65535]);
    assert!(result.ok);
}

#[test]
fn permission_denied_is_a_warning() {
    let (result, _, _) =
        run_all(PortPreflight::new(&[80], None), &vec![], &|_| ProbeOutcome::PermissionDenied);
    assert!(result.ok);
    assert!(result.conflicts.is_empty());
    assert_eq!(
        result.warnings,
        vec!["Permission denied while probing host port 80. Host-level occupancy could not be fully verified.".to_string()]
    );
}

#[test]
fn other_probe_failure_is_a_warning_with_its_reason() {
    let (result, _, _) = run_all(PortPreflight::new(&[81], None), &vec![], &|_| {
        ProbeOutcome::Failed("Cannot assign requested address (os error 99)".to_string())
    });
    assert!(result.ok);
    assert_eq!(
        result.warnings,
        vec!["Could not probe host port 81: Cannot assign requested address (os error 99)".to_string()]
    );
}

#[test]
fn container_and_host_findings_are_combined_in_order() {
    let running = vec![
        container("aaaaaaaaaaaaaaaa", &["proxy"], "caddy:2", vec![binding(443, Some(443)), binding(2019, None)]),
        container("bbbbbbbbbbbbbbbb", &["db"], "postgres:16", vec![binding(5432, Some(5432))]),
    ];
    let (result, probed, _) = run_all(PortPreflight::new(&[80, 443, 8080, 22], None), &running, &|p| {
        match p {
            8080 => ProbeOutcome::AddrInUse,
            22 => ProbeOutcome::PermissionDenied,
            _ => ProbeOutcome::Free,
        }
    });
    assert_eq!(probed, vec![80, 8080, 22]);
    assert!(!result.ok);
    assert_eq!(result.conflicts.len(), 2);
    assert_eq!(result.conflicts[0].port, 443);
    assert_eq!(result.conflicts[0].occupant_type, "container");
    assert_eq!(result.conflicts[0].occupied_by, "proxy");
    assert_eq!(result.conflicts[1].port, 8080);
    assert_eq!(result.conflicts[1].occupant_type, "host-process");
    assert_eq!(result.warnings.len(), 1);
}

#[test]
fn a_port_has_at_most_one_conflict() {
    let running = vec![
        container("aaaaaaaaaaaaaaaa", &["first"], "a", vec![binding(80, Some(8080)), binding(80, Some(8080))]),
        container("bbbbbbbbbbbbbbbb", &["second"], "b", vec![binding(80, Some(8080))]),
    ];
    let (result, probed, _) =
        run_all(PortPreflight::new(&[8080], None), &running, &|_| ProbeOutcome::AddrInUse);
    assert!(probed.is_empty());
    assert_eq!(result.conflicts.len(), 1);
    assert_eq!(result.conflicts[0].occupied_by, "first");
    assert_eq!(result.conflicts[0].occupant_container_id, Some("aaaaaaaaaaaaaaaa".to_string()));
}

#[test]
fn container_without_a_name_goes_by_its_short_id() {
    let running = vec![container("0123456789abcdefXYZ", &[], "img", vec![binding(80, Some(80))])];
    let (result, _, _) = run_all(PortPreflight::new(&[80], None), &running, &|_| ProbeOutcome::Free);
    assert_eq!(result.conflicts[0].occupied_by, "0123456789ab");
    assert_eq!(
        result.conflicts[0].suggestion,
        "Port 80 is already used by container '0123456789ab'. Stop it first, or configure a different listening port."
    );
    let running = vec![container("short", &[], "img", vec![binding(80, Some(80))])];
    let (result, _, _) = run_all(PortPreflight::new(&[80], None), &running, &|_| ProbeOutcome::Free);
    assert_eq!(result.conflicts[0].occupied_by, "short");
}

#[test]
fn excluded_container_is_left_out() {
    let running = vec![container("0123456789abcdef", &["self"], "img", vec![binding(80, Some(80))])];
    for exclude in ["0123456789abcdef", "0123456789ab", "0123456789abcdef0000", ""] {
        let (result, probed, _) =
            run_all(PortPreflight::new(&[80], Some(exclude)), &running, &|_| ProbeOutcome::Free);
        assert!(result.ok, "exclude {:?}", exclude);
        assert!(result.conflicts.is_empty());
        assert_eq!(probed, vec![80]);
    }
    let (result, _, _) =
        run_all(PortPreflight::new(&[80], Some("123")), &running, &|_| ProbeOutcome::Free);
    assert!(!result.ok);
    assert_eq!(result.conflicts[0].occupied_by, "self");
}

#[test]
fn excluded_container_does_not_hide_another_occupant() {
    let running = vec![
        container("aaaa", &["self"], "img", vec![binding(80, Some(80))]),
        container("bbbb", &["other"], "img", vec![binding(80, Some(80))]),
    ];
    let (result, _, _) =
        run_all(PortPreflight::new(&[80], Some("aaaa")), &running, &|_| ProbeOutcome::Free);
    assert_eq!(result.conflicts.len(), 1);
    assert_eq!(result.conflicts[0].occupied_by, "other");
    let (result, _, _) = run_all(
        PortPreflight::new(&[80], Some("aaaa")),
        &vec![container("aaaa", &["self"], "img", vec![binding(80, Some(80))])],
        &|_| ProbeOutcome::AddrInUse,
    );
    assert_eq!(result.conflicts.len(), 1);
    assert_eq!(result.conflicts[0].occupant_type, "host-process");
    assert_eq!(result.conflicts[0].occupant_container_id, None);
}

#[test]
fn answers_out_of_turn_are_ignored() {
    let mut run = PortPreflight::new(&[80], None);
    run.probed(ProbeOutcome::AddrInUse);
    assert_eq!(run.step(), PreflightStep::ListRunning);
    run.containers(&vec![]);
    run.containers(&vec![container("aaaa", &["late"], "img", vec![binding(80, Some(80))])]);
    assert_eq!(run.step(), PreflightStep::Probe(80));
    run.probed(ProbeOutcome::Free);
    run.probed(ProbeOutcome::AddrInUse);
    assert_eq!(run.step(), PreflightStep::Done);
    let result = run.finish().unwrap();
    assert!(result.ok);
    assert!(result.conflicts.is_empty());
}

#[test]
fn unfinished_preflight_has_no_finding() {
    let run = PortPreflight::new(&[80], None);
    assert!(run.finish().is_none());
    let mut run = PortPreflight::new(&[80], None);
    run.containers(&vec![]);
    assert!(run.finish().is_none());
}
