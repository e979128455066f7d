use mana_panel_backend::error::{AppError, ErrorCategory};
use mana_panel_backend::services::application::ApplicationManager;
use mana_panel_backend::services::docker::{
    ContainerInfo, CreateContainerRequest, PortMap, PortPublish,
};
use mana_panel_backend::services::install::{InstallApplicationRequest, InstallStep};
use mana_panel_backend::services::preflight::{PortConflict, PreflightResult};
use mana_panel_backend::strmap::StringMap;

fn request(template_id: &str) -> InstallApplicationRequest {
    InstallApplicationRequest {
        template_id: template_id.to_string(),
        name: None,
        image_override: None,
        upstream_host: None,
        upstream_port: None,
        domain: None,
        listen_http_port: None,
        listen_https_port: None,
        env: None,
        replace_existing: None,
    }
}

fn passed(ports: Vec<u16>) -> PreflightResult {
    PreflightResult { ok: true, requested_ports: ports, conflicts: vec![], warnings: vec![] }
}

fn labels(pairs: &[(&str, &str)]) -> StringMap {
    let mut map = StringMap::new();
    for (key, value) in pairs {
        map.insert(key.to_string(), value.to_string());
    }
    map
}

fn labelled_container(id: &str, state: &str, pairs: &[(&str, &str)]) -> ContainerInfo {
    ContainerInfo {
        id: id.to_string(),
        names: vec![id.to_string()],
        image: "img".to_string(),
        image_id: String::new(),
        command: String::new(),
        created: 0,
        state: state.to_string(),
        status: String::new(),
        ports: vec![],
        labels: labels(pairs),
        size_rw: None,
        size_root_fs: None,
    }
}

fn instance(id: &str, state: &str, category: &str) -> ContainerInfo {
    labelled_container(
        id,
        state,
        &[
            ("mana-panel.managed", "true"),
            ("mana-panel.app.role", "application"),
            ("mana-panel.app.category", category),
        ],
    )
}

fn publish(container_port: &str, host_port: &str) -> PortPublish {
    PortPublish {
        container_port: container_port.to_string(),
        bindings: vec![PortMap { host_ip: Some("0.0.0.0".to_string()), host_port: host_port.to_string() }],
    }
}

fn after_preflight(req: InstallApplicationRequest, result: &PreflightResult) -> InstallStep {
    match ApplicationManager::new().install_application(req) {
        InstallStep::Preflight(_, pending) => pending.checked(result),
        other => panic!("expected the preflight step, got {:?}", other),
    }
}

#[test]
fn unknown_template_is_refused_at_once() {
    match ApplicationManager::new().install_application(request("nope")) {
        InstallStep::Rejected(error) => {
            assert_eq!(error, AppError::Validation("Unknown template_id: nope".to_string()));
            assert_eq!(error.category(), ErrorCategory::Validation);
        }
        other => panic!("expected a refusal, got {:?}", other),
    }
    let mut req = request("");
    req.replace_existing = Some(true);
    assert_eq!(
        ApplicationManager::new().install_application(req),
        InstallStep::Rejected(AppError::Validation("Unknown template_id: ".to_string()))
    );
}

#[test]
fn plain_install_checks_the_default_ports_first() {
    match ApplicationManager::new().install_application(request("nginx-standard")) {
        InstallStep::Preflight(ports, _) => assert_eq!(ports, vec![80, 443]),
        other => panic!("expected the preflight step, got {:?}", other),
    }
}

#[test]
fn requested_ports_are_sorted_and_merged() {
    let manager = ApplicationManager::new();
    let template = manager.find_template("nginx-standard").unwrap();
    let mut req = request("nginx-standard");
    assert_eq!(manager.requested_ports_for_install(&req, &template), vec![80, 443]);
    req.listen_http_port = Some(8443);
    req.listen_https_port = Some(8080);
    assert_eq!(manager.requested_ports_for_install(&req, &template), vec![8080, 8443]);
    req.listen_https_port = Some(8443);
    assert_eq!(manager.requested_ports_for_install(&req, &template), vec![8443]);
    req.listen_http_port = None;
    req.listen_https_port = Some(80);
    assert_eq!(manager.requested_ports_for_install(&req, &template), vec![80]);
    req.listen_http_port = Some(443);
    req.listen_https_port = None;
    assert_eq!(manager.requested_ports_for_install(&req, &template), vec![443]);
}

#[test]
fn plain_install_creates_the_container() {
    let step = after_preflight(request("nginx-standard"), &passed(vec![80, 443]));
    let expected = CreateContainerRequest {
        name: Some("mana-nginx-standard".to_string()),
        image: "nginx:stable-alpine".to_string(),
        cmd: None,
        env: None,
        ports: Some(vec![publish("80/tcp", "80"), publish("443/tcp", "443")]),
        volumes: None,
        restart_policy: Some("unless-stopped".to_string()),
        labels: Some(labels(&[
            ("mana-panel.managed", "true"),
            ("mana-panel.app.role", "application"),
            ("mana-panel.app.category", "proxy"),
            ("mana-panel.app.template", "nginx-standard"),
            ("mana-panel.app.name", "mana-nginx-standard"),
        ])),
    };
    assert_eq!(step, InstallStep::CreateContainer(expected));
}

#[test]
fn install_takes_name_image_ports_and_environment_from_the_request() {
    let mut req = request("nginx-standard");
    req.name = Some("front".to_string());
    req.image_override = Some("nginx:1.27".to_string());
    req.listen_http_port = Some(8080);
    req.listen_https_port = Some(8443);
    req.env = Some(vec!["A=1".to_string(), "B=2".to_string()]);
    req.domain = Some("  example.org ".to_string());
    match after_preflight(req, &passed(vec![8080, 8443])) {
        InstallStep::CreateContainer(create) => {
            assert_eq!(create.name, Some("front".to_string()));
            assert_eq!(create.image, "nginx:1.27");
            assert_eq!(create.cmd, None);
            assert_eq!(create.env, Some(vec!["A=1".to_string(), "B=2".to_string()]));
            assert_eq!(create.ports, Some(vec![publish("80/tcp", "8080"), publish("443/tcp", "8443")]));
            let labels = create.labels.unwrap();
            assert_eq!(labels.get("mana-panel.app.name"), Some(&"front".to_string()));
            assert_eq!(labels.get("mana-panel.proxy.site"), Some(&"example.org".to_string()));
            assert_eq!(labels.get("mana-panel.proxy.upstream"), None);
        }
        other => panic!("expected the creation, got {:?}", other),
    }
}

#[test]
fn proxy_with_domain_and_upstream_runs_the_reverse_proxy() {
    let mut req = request("caddy-autossl");
    req.domain = Some(" example.com ".to_string());
    req.upstream_host = Some("app".to_string());
    match after_preflight(req, &passed(vec![80, 443])) {
        InstallStep::CreateContainer(create) => {
            assert_eq!(create.image, "caddy:2-alpine");
            assert_eq!(create.name, Some("mana-caddy-autossl".to_string()));
            assert_eq!(
                create.cmd,
                Some(
                    ["caddy", "reverse-proxy", "--from", "example.com", "--to", "app:3000"]
                        .iter()
                        .map(|s| s.to_string())
                        .collect::<Vec<String>>()
                )
            );
            let labels = create.labels.unwrap();
            assert_eq!(labels.get("mana-panel.proxy.site"), Some(&"example.com".to_string()));
            assert_eq!(labels.get("mana-panel.proxy.upstream"), Some(&"app:3000".to_string()));
            assert_eq!(labels.get("mana-panel.app.template"), Some(&"caddy-autossl".to_string()));
        }
        other => panic!("expected the creation, got {:?}", other),
    }
    let mut req = request("caddy-autossl");
    req.domain = Some("example.com".to_string());
    req.upstream_host = Some("10.0.0.5".to_string());
    req.upstream_port = Some(8081);
    match after_preflight(req, &passed(vec![80, 443])) {
        InstallStep::CreateContainer(create) => {
            assert_eq!(create.cmd.unwrap()[5], "10.0.0.5:8081");
        }
        other => panic!("expected the creation, got {:?}", other),
    }
}

#[test]
fn proxy_without_domain_is_refused_and_never_created() {
    let mut req = request("caddy-autossl");
    req.upstream_host = Some("app".to_string());
    assert_eq!(
        after_preflight(req, &passed(vec![80, 443])),
        InstallStep::Rejected(AppError::Validation(
            "domain is required for template 'caddy-autossl'".to_string()
        ))
    );
    let mut req = request("caddy-autossl");
    req.domain = Some(" \t ".to_string());
    req.upstream_host = Some("app".to_string());
    assert_eq!(
        after_preflight(req, &passed(vec![80, 443])),
        InstallStep::Rejected(AppError::Validation(
            "domain is required for template 'caddy-autossl'".to_string()
        ))
    );
}

#[test]
fn proxy_without_upstream_is_refused() {
    let mut req = request("caddy-autossl");
    req.domain = Some("example.com".to_string());
    assert_eq!(
        after_preflight(req, &passed(vec![80, 443])),
        InstallStep::Rejected(AppError::Validation(
            "upstream_host is required for template 'caddy-autossl'".to_string()
        ))
    );
    let mut req = request("caddy-autossl");
    req.domain = Some("example.com".to_string());
    req.upstream_host = Some("".to_string());
    assert_eq!(
        after_preflight(req, &passed(vec![80, 443])),
        InstallStep::Rejected(AppError::Validation(
            "upstream_host is required for template 'caddy-autossl'".to_string()
        ))
    );
}

#[test]
fn build_create_request_for_each_template() {
    let manager = ApplicationManager::new();
    let nginx = manager.find_template("nginx-standard").unwrap();
    let create = manager.build_create_request(request("nginx-standard"), nginx).unwrap();
    assert_eq!(create.restart_policy, Some("unless-stopped".to_string()));
    assert_eq!(create.volumes, None);
    let caddy = manager.find_template("caddy-autossl").unwrap();
    let error = manager.build_create_request(request("caddy-autossl"), caddy).unwrap_err();
    assert_eq!(error.category(), ErrorCategory::Validation);
    assert_eq!(error.message(), "domain is required for template 'caddy-autossl'");
}

fn conflict(port: u16, occupant_type: &str, occupied_by: &str) -> PortConflict {
    PortConflict {
        port,
        occupied_by: occupied_by.to_string(),
        occupant_type: occupant_type.to_string(),
        occupant_container_id: None,
        occupant_image: None,
        suggestion: String::new(),
    }
}

#[test]
fn port_conflict_refuses_the_install() {
    let result = PreflightResult {
        ok: false,
        requested_ports: vec![80, 443],
        conflicts: vec![conflict(80, "container", "web1"), conflict(443, "host-process", "host process")],
        warnings: vec![],
    };
    assert_eq!(
        after_preflight(request("nginx-standard"), &result),
        InstallStep::Rejected(AppError::Validation(
            "Cannot start nginx-standard: port 80 is already occupied by 'web1'. Please change listening port(s) or stop the existing container.".to_string()
        ))
    );
    let result = PreflightResult {
        ok: false,
        requested_ports: vec![443],
        conflicts: vec![conflict(443, "host-process", "host process")],
        warnings: vec![],
    };
    let mut req = request("caddy-autossl");
    req.listen_http_port = Some(443);
    assert_eq!(
        after_preflight(req, &result),
        InstallStep::Rejected(AppError::Validation(
            "Cannot start caddy-autossl: port 443 is already occupied by a host process. Please change listening port(s) or stop the existing process.".to_string()
        ))
    );
}

#[test]
fn conflict_message_for_no_conflict() {
    let manager = ApplicationManager::new();
    assert_eq!(manager.format_conflict_message("app", &vec![]), "No port conflicts detected");
    assert_eq!(
        manager.format_conflict_message("application", &vec![conflict(65535, "container", "x")]),
        "Cannot start application: port 65535 is already occupied by 'x'. Please change listening port(s) or stop the existing container."
    );
}

#[test]
fn warnings_do_not_refuse_the_install() {
    let result = PreflightResult {
        ok: true,
        requested_ports: vec![80, 443],
        conflicts: vec![],
        warnings: vec!["Permission denied while probing host port 80. Host-level occupancy could not be fully verified.".to_string()],
    };
    match after_preflight(request("nginx-standard"), &result) {
        InstallStep::CreateContainer(_) => {}
        other => panic!("expected the creation, got {:?}", other),
    }
}

#[test]
fn replacement_removes_the_instances_in_the_way_before_the_preflight() {
    let containers = vec![
        instance("a-running", "running", "proxy"),
        instance("b-exited", "exited", "proxy"),
        labelled_container("c-foreign", "running", &[("mana-panel.app.category", "proxy")]),
        instance("d-created", "created", "proxy"),
        instance("e-other", "running", "database"),
        instance("f-restarting", "restarting", "proxy"),
        labelled_container(
            "g-unmanaged",
            "running",
            &[("mana-panel.managed", "false"), ("mana-panel.app.role", "application"), ("mana-panel.app.category", "proxy")],
        ),
    ];
    let mut req = request("nginx-standard");
    req.replace_existing = Some(true);
    let mut step = match ApplicationManager::new().install_application(req) {
        InstallStep::ListContainers(pending) => pending.containers(&containers),
        other => panic!("expected the listing, got {:?}", other),
    };
    let mut removed = Vec::new();
    let ports = loop {
        match step {
            InstallStep::RemoveContainer(id, pending) => {
                removed.push(id);
                step = pending.removed();
            }
            InstallStep::Preflight(ports, _) => break ports,
            other => panic!("expected a removal or the preflight, got {:?}", other),
        }
    };
    assert_eq!(removed, vec!["a-running", "d-created", "f-restarting"]);
    assert_eq!(ports, vec![80, 443]);
}

#[test]
fn replacement_with_nothing_in_the_way_goes_on_to_the_preflight() {
    let mut req = request("caddy-autossl");
    req.replace_existing = Some(true);
    match ApplicationManager::new().install_application(req) {
        InstallStep::ListContainers(pending) => match pending.containers(&vec![instance("x", "exited", "proxy")]) {
            InstallStep::Preflight(ports, _) => assert_eq!(ports, vec![80, 443]),
            other => panic!("expected the preflight, got {:?}", other),
        },
        other => panic!("expected the listing, got {:?}", other),
    }
}

#[test]
fn no_replacement_unless_asked_for() {
    for flag in [None, Some(false)] {
        let mut req = request("nginx-standard");
        req.replace_existing = flag;
        match ApplicationManager::new().install_application(req) {
            InstallStep::Preflight(_, _) => {}
            other => panic!("expected the preflight, got {:?}", other),
        }
    }
}

#[test]
fn install_labels_mark_the_instance() {
    let manager = ApplicationManager::new();
    let template = manager.find_template("caddy-autossl").unwrap();
    let mut req = request("caddy-autossl");
    req.upstream_host = Some(" backend ".to_string());
    req.upstream_port = Some(0);
    let labels = manager.install_labels(&req, &template);
    assert_eq!(labels.get("mana-panel.managed"), Some(&"true".to_string()));
    assert_eq!(labels.get("mana-panel.app.role"), Some(&"application".to_string()));
    assert_eq!(labels.get("mana-panel.app.category"), Some(&"proxy".to_string()));
    assert_eq!(labels.get("mana-panel.app.template"), Some(&"caddy-autossl".to_string()));
    assert_eq!(labels.get("mana-panel.app.name"), Some(&"mana-caddy-autossl".to_string()));
    assert_eq!(labels.get("mana-panel.proxy.site"), None);
    assert_eq!(labels.get("mana-panel.proxy.upstream"), Some(&"backend:0".to_string()));
}
