use mana_panel_backend::error::AppError;
use mana_panel_backend::services::application::{
    ApplicationInstance, ApplicationManager, ApplicationPort, ApplicationTemplate,
};
use mana_panel_backend::services::docker::{ContainerInfo, ImageInfo, PortBinding};
use mana_panel_backend::services::lifecycle::EngineCall;
use mana_panel_backend::services::preflight::{
    PortConflict, PortPreflight, PreflightResult, PreflightStep, ProbeOutcome,
};
use mana_panel_backend::strmap::StringMap;

fn string_map(pairs: &[(&str, &str)]) -> StringMap {
    let mut map = StringMap::new();
    for (key, value) in pairs {
        map.insert(key.to_string(), value.to_string());
    }
    map
}

fn managed(extra: &[(&str, &str)]) -> StringMap {
    let mut map = string_map(&[("mana-panel.managed", "true"), ("mana-panel.app.role", "application")]);
    for (key, value) in extra {
        map.insert(key.to_string(), value.to_string());
    }
    map
}

fn port(private_port: u16, public_port: Option<u16>) -> PortBinding {
    PortBinding { ip: "0.0.0.0".to_string(), private_port, public_port, port_type: "tcp".to_string() }
}

fn engine_container(id: &str, names: &[&str], ports: Vec<PortBinding>, labels: StringMap) -> ContainerInfo {
    ContainerInfo {
        id: id.to_string(),
        names: names.iter().map(|n| n.to_string()).collect(),
        image: "nginx:stable-alpine".to_string(),
        image_id: "sha256:abc".to_string(),
        command: "nginx".to_string(),
        created: 1700000000,
        state: "running".to_string(),
        status: "Up 2 hours".to_string(),
        ports,
        labels,
        size_rw: None,
        size_root_fs: None,
    }
}

fn image(id: &str, tags: &[&str]) -> ImageInfo {
    ImageInfo {
        id: id.to_string(),
        repo_tags: tags.iter().map(|t| t.to_string()).collect(),
        repo_digests: vec![],
        created: 0,
        size: 0,
        shared_size: 0,
        containers: 0,
        labels: StringMap::new(),
    }
}

fn drive(mut run: PortPreflight, running: &Vec<ContainerInfo>, outcome: fn(u16) -> ProbeOutcome) -> PreflightResult {
    loop {
        match run.step() {
            PreflightStep::ListRunning => run.containers(running),
            PreflightStep::Probe(p) => run.probed(outcome(p)),
            PreflightStep::Done => return run.finish().unwrap(),
        }
    }
}

#[test]
fn catalog_holds_the_two_templates_in_order() {
    let templates = ApplicationManager::new().list_templates();
    assert_eq!(
        templates,
        vec![
            ApplicationTemplate {
                id: "nginx-standard".to_string(),
                name: "Nginx-Standard".to_string(),
                description: "Standard Nginx container template".to_string(),
                category: "proxy".to_string(),
                image: "nginx:stable-alpine".to_string(),
                default_ports: vec![80, 443],
                requires_domain: false,
                requires_upstream: false,
            },
            ApplicationTemplate {
                id: "caddy-autossl".to_string(),
                name: "Caddy-AutoSSL".to_string(),
                description: "Caddy reverse proxy template with automatic HTTPS using a domain".to_string(),
                category: "proxy".to_string(),
                image: "caddy:2-alpine".to_string(),
                default_ports: vec![80, 443],
                requires_domain: true,
                requires_upstream: true,
            },
        ]
    );
    assert_eq!(ApplicationManager::new().list_templates(), templates);
}

#[test]
fn template_is_found_by_its_exact_id() {
    let manager = ApplicationManager::new();
    assert_eq!(manager.find_template("caddy-autossl").unwrap().image, "caddy:2-alpine");
    assert_eq!(manager.find_template("nginx-standard").unwrap().name, "Nginx-Standard");
    assert_eq!(manager.find_template("nginx"), None);
    assert_eq!(manager.find_template("Nginx-Standard"), None);
    assert_eq!(manager.find_template(" nginx-standard"), None);
    assert_eq!(manager.find_template(""), None);
}

#[test]
fn instances_are_the_labelled_containers() {
    let containers = vec![
        engine_container(
            "id-1",
            &["engine-name"],
            vec![port(80, Some(8080)), port(443, None)],
            managed(&[
                ("mana-panel.app.name", "front"),
                ("mana-panel.app.template", "nginx-standard"),
                ("mana-panel.app.category", "proxy"),
            ]),
        ),
        engine_container("id-2", &["plain"], vec![], StringMap::new()),
        engine_container("id-3", &["half"], vec![], string_map(&[("mana-panel.managed", "true")])),
        engine_container(
            "id-4",
            &["wrong-role"],
            vec![],
            string_map(&[("mana-panel.managed", "true"), ("mana-panel.app.role", "database")]),
        ),
        engine_container("id-5", &["second-name", "alias"], vec![], managed(&[])),
        engine_container("id-6", &[], vec![], managed(&[])),
    ];
    let instances = ApplicationManager::new().list_instances(&containers);
    assert_eq!(instances.len(), 3);
    assert_eq!(
        instances[0],
        ApplicationInstance {
            id: "id-1".to_string(),
            name: "front".to_string(),
            template_id: "nginx-standard".to_string(),
            category: "proxy".to_string(),
            image: "nginx:stable-alpine".to_string(),
            state: "running".to_string(),
            status: "Up 2 hours".to_string(),
            ports: vec![
                ApplicationPort {
                    ip: "0.0.0.0".to_string(),
                    private_port: 80,
                    public_port: Some(8080),
                    protocol: "tcp".to_string(),
                },
                ApplicationPort {
                    ip: "0.0.0.0".to_string(),
                    private_port: 443,
                    public_port: None,
                    protocol: "tcp".to_string(),
                },
            ],
            labels: managed(&[
                ("mana-panel.app.name", "front"),
                ("mana-panel.app.template", "nginx-standard"),
                ("mana-panel.app.category", "proxy"),
            ]),
        }
    );
    assert_eq!(instances[1].id, "id-5");
    assert_eq!(instances[1].name, "second-name");
    assert_eq!(instances[1].template_id, "");
    assert_eq!(instances[1].category, "");
    assert_eq!(instances[2].id, "id-6");
    assert_eq!(instances[2].name, "unnamed");
    assert!(ApplicationManager::new().list_instances(&vec![]).is_empty());
}

#[test]
fn image_is_found_by_tag_with_the_default_tag_filled_in() {
    let manager = ApplicationManager::new();
    let images = vec![image("sha256:1", &["redis:7"]), image("sha256:2", &["nginx:latest", "nginx:stable-alpine"])];
    assert!(manager.image_exists("nginx", &images));
    assert!(manager.image_exists("nginx:latest", &images));
    assert!(manager.image_exists("  nginx:stable-alpine \n", &images));
    assert!(manager.image_exists("redis:7", &images));
    assert!(!manager.image_exists("redis", &images));
    assert!(!manager.image_exists("nginx:1.27", &images));
    assert!(!manager.image_exists("NGINX", &images));
    assert!(!manager.image_exists("sha256:2", &images));
    assert!(!manager.image_exists("", &images));
    assert!(!manager.image_exists("   ", &images));
    assert!(!manager.image_exists("nginx", &vec![]));
}

#[test]
fn start_of_an_unknown_container_is_not_found() {
    let manager = ApplicationManager::new();
    let containers = vec![engine_container("abcdef", &["a"], vec![], managed(&[]))];
    assert_eq!(
        manager.preflight_start("xyz", &containers).unwrap_err(),
        AppError::NotFound("Application container xyz not found".to_string())
    );
    assert_eq!(
        manager.preflight_start("bcdef", &containers).unwrap_err(),
        AppError::NotFound("Application container bcdef not found".to_string())
    );
    assert_eq!(
        manager.preflight_start("abcdef0", &vec![]).unwrap_err(),
        AppError::NotFound("Application container abcdef0 not found".to_string())
    );
}

#[test]
fn start_of_a_foreign_container_is_refused() {
    let manager = ApplicationManager::new();
    let containers = vec![
        engine_container("abcdef", &["a"], vec![port(80, Some(80))], StringMap::new()),
        engine_container("abcxyz", &["b"], vec![], managed(&[])),
    ];
    assert_eq!(
        manager.preflight_start("abc", &containers).unwrap_err(),
        AppError::Validation("Target container is not a managed application instance".to_string())
    );
    assert!(manager.preflight_start("abcx", &containers).is_ok());
}

#[test]
fn start_checks_the_published_ports_and_leaves_the_instance_itself_out() {
    let manager = ApplicationManager::new();
    let own = engine_container(
        "0123456789abcdef",
        &["front"],
        vec![port(80, Some(8080)), port(80, Some(8080)), port(443, Some(8443)), port(2019, None)],
        managed(&[("mana-panel.app.template", "nginx-standard")]),
    );
    let other = engine_container("ffffffffffffffff", &["other"], vec![port(80, Some(8443))], StringMap::new());
    let all = vec![other.clone(), own.clone()];

    let run = manager.preflight_start("0123456789ab", &all).unwrap();
    let result = drive(run, &vec![own.clone()], |_| ProbeOutcome::Free);
    assert_eq!(
        result,
        PreflightResult { ok: true, requested_ports: vec![8080, 8443], conflicts: vec![], warnings: vec![] }
    );

    let run = manager.preflight_start("0123456789abcdef", &all).unwrap();
    let result = drive(run, &vec![own, other], |_| ProbeOutcome::Free);
    assert!(!result.ok);
    assert_eq!(result.conflicts.len(), 1);
    assert_eq!(result.conflicts[0].port, 8443);
    assert_eq!(result.conflicts[0].occupied_by, "other");
}

#[test]
fn start_without_published_ports_falls_back_on_the_template() {
    let manager = ApplicationManager::new();
    for template in ["nginx-standard", "caddy-autossl"] {
        let containers = vec![engine_container(
            "abc",
            &["x"],
            vec![port(80, None)],
            managed(&[("mana-panel.app.template", template)]),
        )];
        let run = manager.preflight_start("abc", &containers).unwrap();
        let result = drive(run, &vec![], |_| ProbeOutcome::Free);
        assert_eq!(result.requested_ports, vec![80, 443]);
    }
    for labels in [managed(&[("mana-panel.app.template", "custom")]), managed(&[])] {
        let containers = vec![engine_container("abc", &["x"], vec![], labels)];
        let run = manager.preflight_start("abc", &containers).unwrap();
        assert_eq!(run.step(), PreflightStep::Done);
        let result = run.finish().unwrap();
        assert!(result.ok);
        assert!(result.requested_ports.is_empty());
    }
}

#[test]
fn start_is_gated_by_the_preflight() {
    let manager = ApplicationManager::new();
    let passed = PreflightResult { ok: true, requested_ports: vec![80], conflicts: vec![], warnings: vec!["w".to_string()] };
    assert_eq!(manager.start_application("abc", &passed), Ok(EngineCall::Start("abc".to_string())));
    let failed = PreflightResult {
        ok: false,
        requested_ports: vec![80],
        conflicts: vec![PortConflict {
            port: 80,
            occupied_by: "host process".to_string(),
            occupant_type: "host-process".to_string(),
            occupant_container_id: None,
            occupant_image: None,
            suggestion: String::new(),
        }],
        warnings: vec![],
    };
    assert_eq!(
        manager.start_application("abc", &failed),
        Err(AppError::Validation(
            "Cannot start application: port 80 is already occupied by a host process. Please change listening port(s) or stop the existing process.".to_string()
        ))
    );
}

#[test]
fn stop_and_remove_are_handed_to_the_engine() {
    let manager = ApplicationManager::new();
    assert_eq!(manager.stop_application("abc"), EngineCall::Stop("abc".to_string()));
    assert_eq!(manager.remove_application("abc", true), EngineCall::Remove("abc".to_string(), true));
    assert_eq!(manager.remove_application("", false), EngineCall::Remove(String::new(), false));
}

#[test]
fn manager_starts_a_preflight() {
    let run = ApplicationManager::new().preflight_ports(&[443, 0, 443], Some("abc"));
    assert_eq!(run.step(), PreflightStep::ListRunning);
    let result = drive(run, &vec![], |_| ProbeOutcome::Free);
    assert_eq!(result.requested_ports, vec![443]);
}
