use mana_panel_backend::api::applications::{
    after_install, after_retry, image_exists, resolve_install_image, ForceQuery, ImageExistsQuery,
    ImageExistsResponse, InstallApplicationResponse, InstallAttempt,
};
use mana_panel_backend::api::docker::{
    AllQuery, ForceQuery as EngineForceQuery, LogsQuery as EngineLogsQuery,
};
use mana_panel_backend::api::services::{
    action_failure, parse_service_list, validate_service_name, LogsQuery, ServiceActionResponse,
    ServiceInfo, ServiceLogs,
};
use mana_panel_backend::error::AppError;
use mana_panel_backend::services::application::ApplicationManager;
use mana_panel_backend::services::docker::{DockerActionResponse, ImageInfo, PullProgress};
use mana_panel_backend::services::install::InstallApplicationRequest;
use mana_panel_backend::strmap::StringMap;

fn local_image(id: &str, tags: &[&str]) -> ImageInfo {
    ImageInfo {
        id: id.to_string(),
        repo_tags: tags.iter().map(|t| t.to_string()).collect(),
        repo_digests: vec![],
        created: 0,
        size: 0,
        shared_size: 0,
        containers: 0,
        labels: StringMap::new(),
    }
}

fn payload(template_id: &str, image_override: Option<&str>) -> InstallApplicationRequest {
    InstallApplicationRequest {
        template_id: template_id.to_string(),
        name: None,
        image_override: image_override.map(|s| s.to_string()),
        upstream_host: None,
        upstream_port: None,
        domain: None,
        listen_http_port: None,
        listen_https_port: None,
        env: None,
        replace_existing: None,
    }
}

fn created() -> DockerActionResponse {
    DockerActionResponse { success: true, message: "Container created with id abc".to_string() }
}

#[test]
fn service_names_of_letters_digits_and_marks_are_accepted() {
    for name in ["nginx", "ssh.service", "user@1000", "a-b_c.d@e", "0", "été", "服务", "x".repeat(256).as_str()] {
        assert_eq!(validate_service_name(name), Ok(()), "{:?}", name);
    }
}

#[test]
fn service_name_of_wrong_length_is_refused() {
    let too_long = "x".repeat(257);
    let two_bytes_each = "é".repeat(129);
    for name in ["", too_long.as_str(), two_bytes_each.as_str()] {
        assert_eq!(
            validate_service_name(name),
            Err(AppError::Validation("Invalid service name length".to_string()))
        );
    }
    assert_eq!(validate_service_name("é".repeat(128).as_str()), Ok(()));
    let long_and_bad = " ".repeat(300);
    assert_eq!(
        validate_service_name(long_and_bad.as_str()),
        Err(AppError::Validation("Invalid service name length".to_string()))
    );
}

#[test]
fn service_name_with_other_characters_is_refused() {
    for name in ["a b", "nginx;rm", "../etc", "a/b", "name\n", "$(x)", "a,b", "tab\t", "q?"] {
        assert_eq!(
            validate_service_name(name),
            Err(AppError::Validation("Invalid service name characters".to_string())),
            "{:?}",
            name
        );
    }
}

#[test]
fn log_queries_are_bounded() {
    assert_eq!(LogsQuery { lines: None }.line_count(), 100);
    assert_eq!(LogsQuery { lines: Some(0) }.line_count(), 0);
    assert_eq!(LogsQuery { lines: Some(999) }.line_count(), 999);
    assert_eq!(LogsQuery { lines: Some(1000) }.line_count(), 1000);
    assert_eq!(LogsQuery { lines: Some(1001) }.line_count(), 1000);
    assert_eq!(LogsQuery { lines: Some(usize::MAX) }.line_count(), 1000);
    assert_eq!(EngineLogsQuery { tail: None }.line_count(), 200);
    assert_eq!(EngineLogsQuery { tail: Some(17) }.line_count(), 17);
    assert_eq!(EngineLogsQuery { tail: Some(5000) }.line_count(), 5000);
    assert_eq!(EngineLogsQuery { tail: Some(5001) }.line_count(), 5000);
}

#[test]
fn flags_left_out_take_their_defaults() {
    assert!(ForceQuery { force: None }.forced());
    assert!(ForceQuery { force: Some(true) }.forced());
    assert!(!ForceQuery { force: Some(false) }.forced());
    assert!(!EngineForceQuery { force: None }.forced());
    assert!(EngineForceQuery { force: Some(true) }.forced());
    assert!(AllQuery { all: None }.all_containers());
    assert!(!AllQuery { all: Some(false) }.all_containers());
    assert!(!AllQuery { all: None }.all_images());
    assert!(AllQuery { all: Some(true) }.all_images());
}

#[test]
fn service_action_is_reported() {
    assert_eq!(
        ServiceActionResponse::succeeded("nginx", "start"),
        ServiceActionResponse { success: true, message: "Service nginx started successfully".to_string() }
    );
    assert_eq!(
        ServiceActionResponse::succeeded("ssh", "restart").message,
        "Service ssh restarted successfully"
    );
}

#[test]
fn image_question_leaves_case_aside() {
    let images = vec![
        local_image("sha256:0AbCdEf123", &["Redis:7"]),
        local_image("sha256:9999", &["nginx:latest", "registry.local:5000/App:1.0"]),
    ];
    let ask = |image: &str| image_exists(&ImageExistsQuery { image: image.to_string() }, &images);
    assert_eq!(ask("NGINX"), Ok(ImageExistsResponse { image: "NGINX".to_string(), exists: true }));
    assert_eq!(ask(" nginx:LATEST "), Ok(ImageExistsResponse { image: "nginx:LATEST".to_string(), exists: true }));
    assert_eq!(ask("redis:7").unwrap().exists, true);
    assert_eq!(ask("redis").unwrap().exists, false);
    assert_eq!(ask("registry.local:5000/app:1.0").unwrap().exists, true);
    assert_eq!(ask("registry.local:5000/app").unwrap().exists, false);
    assert_eq!(ask("0abcdef").unwrap().exists, true);
    assert_eq!(ask("SHA256:9999").unwrap().exists, true);
    assert_eq!(ask("sha256:777").unwrap().exists, false);
    assert_eq!(ask("postgres").unwrap(), ImageExistsResponse { image: "postgres".to_string(), exists: false });
}

#[test]
fn image_query_names_its_image() {
    assert_eq!(ImageExistsQuery { image: " nginx:1 ".to_string() }.image_name(), Ok("nginx:1"));
    assert_eq!(
        ImageExistsQuery { image: " ".to_string() }.image_name(),
        Err(AppError::Validation("image is required".to_string()))
    );
}

#[test]
fn image_question_needs_an_image() {
    for image in ["", "  ", "\n"] {
        assert_eq!(
            image_exists(&ImageExistsQuery { image: image.to_string() }, &vec![local_image("sha256:1", &["a:b"])]),
            Err(AppError::Validation("image is required".to_string()))
        );
    }
}

#[test]
fn needed_image_is_the_override_or_the_templates() {
    let manager = ApplicationManager::new();
    assert_eq!(
        resolve_install_image(&manager, &payload("nginx-standard", None)),
        Some("nginx:stable-alpine".to_string())
    );
    assert_eq!(
        resolve_install_image(&manager, &payload("caddy-autossl", Some("  "))),
        Some("caddy:2-alpine".to_string())
    );
    assert_eq!(
        resolve_install_image(&manager, &payload("caddy-autossl", Some(" my/caddy:1 "))),
        Some("my/caddy:1".to_string())
    );
    assert_eq!(resolve_install_image(&manager, &payload("unknown", Some("x:y"))), Some("x:y".to_string()));
    assert_eq!(resolve_install_image(&manager, &payload("unknown", None)), None);
    assert_eq!(resolve_install_image(&manager, &payload("unknown", Some(""))), None);
}

#[test]
fn successful_install_is_answered_without_a_pull() {
    let manager = ApplicationManager::new();
    assert_eq!(
        after_install(&manager, &payload("nginx-standard", None), Ok(created())),
        InstallAttempt::Respond(InstallApplicationResponse {
            action: created(),
            image_pulled: false,
            pull_progress: vec![],
        })
    );
}

#[test]
fn missing_image_leads_to_a_pull_and_one_more_install() {
    let manager = ApplicationManager::new();
    let failure = || Err(AppError::System("Docker create container: Docker responded with status code 404: No such image: nginx:stable-alpine".to_string()));
    assert_eq!(
        after_install(&manager, &payload("nginx-standard", None), failure()),
        InstallAttempt::PullAndRetry("nginx:stable-alpine".to_string())
    );
    assert_eq!(
        after_install(&manager, &payload("nginx-standard", Some("nginx:1.27")), failure()),
        InstallAttempt::PullAndRetry("nginx:1.27".to_string())
    );
    assert_eq!(
        after_install(&manager, &payload("gone", None), failure()),
        InstallAttempt::Fail(AppError::Validation(
            "No such image and failed to resolve image from template/install payload".to_string()
        ))
    );
}

#[test]
fn other_failures_are_reported_as_they_are() {
    let manager = ApplicationManager::new();
    for error in [
        AppError::System("Docker create container: connection refused".to_string()),
        AppError::System("no such image".to_string()),
        AppError::Validation("No such image".to_string()),
        AppError::NotFound("No such image: x".to_string()),
        AppError::Validation("Unknown template_id: x".to_string()),
    ] {
        assert_eq!(
            after_install(&manager, &payload("nginx-standard", None), Err(error.clone())),
            InstallAttempt::Fail(error)
        );
    }
}

#[test]
fn second_install_is_the_last() {
    let progress = vec![
        PullProgress { status: "Pulling from library/nginx".to_string(), id: Some("stable-alpine".to_string()), progress: None },
        PullProgress { status: "Download complete".to_string(), id: None, progress: Some("[==>]".to_string()) },
    ];
    assert_eq!(
        after_retry(Ok(created()), progress.clone()),
        Ok(InstallApplicationResponse { action: created(), image_pulled: true, pull_progress: progress.clone() })
    );
    let again = AppError::System("Docker create container: No such image: nginx".to_string());
    assert_eq!(after_retry(Err(again.clone()), progress), Err(again));
}

#[test]
fn service_listing_is_read_line_by_line() {
    let output = "  UNIT                 LOAD   ACTIVE   SUB     DESCRIPTION\n\
  cron.service         loaded active   running Regular background program processing daemon\n\
  nginx.service        loaded inactive dead    A high performance web server\n\
\n\
  broken line here\n\
  getty@tty1.service   loaded active   running Getty\r\n\
  LOAD = Reflects whether the unit definition was properly loaded.\n\
  odd.socket           loaded failed   failed  x";
    assert_eq!(
        parse_service_list(output),
        vec![
            ServiceInfo {
                name: "cron".to_string(),
                description: "Regular background program processing daemon".to_string(),
                load_state: "loaded".to_string(),
                active_state: "active".to_string(),
                sub_state: "running".to_string(),
            },
            ServiceInfo {
                name: "nginx".to_string(),
                description: "A high performance web server".to_string(),
                load_state: "loaded".to_string(),
                active_state: "inactive".to_string(),
                sub_state: "dead".to_string(),
            },
            ServiceInfo {
                name: "getty@tty1".to_string(),
                description: "Getty".to_string(),
                load_state: "loaded".to_string(),
                active_state: "active".to_string(),
                sub_state: "running".to_string(),
            },
            ServiceInfo {
                name: "LOAD".to_string(),
                description: "the unit definition was properly loaded.".to_string(),
                load_state: "=".to_string(),
                active_state: "Reflects".to_string(),
                sub_state: "whether".to_string(),
            },
            ServiceInfo {
                name: "odd.socket".to_string(),
                description: "x".to_string(),
                load_state: "loaded".to_string(),
                active_state: "failed".to_string(),
                sub_state: "failed".to_string(),
            },
        ]
    );
    assert!(parse_service_list("").is_empty());
    assert!(parse_service_list("a b c d e f").is_empty());
    assert!(parse_service_list("heading\na b c d").is_empty());
    assert_eq!(parse_service_list("\na.service b c d e").len(), 1);
}

#[test]
fn service_log_is_split_into_lines() {
    let logs = ServiceLogs::from_output("nginx".to_string(), "-- Journal --\nstarted\r\n\nstopped\n");
    assert_eq!(
        logs,
        ServiceLogs {
            name: "nginx".to_string(),
            logs: vec!["-- Journal --".to_string(), "started".to_string(), "".to_string(), "stopped".to_string()],
        }
    );
    assert!(ServiceLogs::from_output("x".to_string(), "").logs.is_empty());
}

#[test]
fn failed_service_action_is_a_system_error() {
    assert_eq!(
        action_failure("restart", "Unit x.service not found.\n"),
        AppError::System("Failed to restart service: Unit x.service not found.\n".to_string())
    );
}
