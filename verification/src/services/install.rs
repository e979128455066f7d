//! Installing an application from a template.
//!
//! An installation resolves the template, optionally removes the running
//! instances of the same category, checks the host ports, and builds what the
//! engine is asked to create. The engine and the host cannot be asked from
//! here, so the installation is handed out step by step: an [`InstallStep`]
//! says what the caller must do next and carries the state that takes the
//! answer. A failure of the engine is not an answer: the caller reports it
//! as it is and drops the installation.

use crate::services::application::{
    catalog, instance_of, is_instance, template_with_id, ApplicationInstanceView,
    ApplicationManager, ApplicationTemplate, ApplicationTemplateView, container_is_instance,
    APP_CATEGORY_PROXY, APP_ROLE_VALUE, LABEL_APP_CATEGORY, LABEL_APP_NAME, LABEL_APP_ROLE,
    LABEL_APP_TEMPLATE, LABEL_MANAGED, LABEL_PROXY_DOMAIN, LABEL_PROXY_UPSTREAM,
    TEMPLATE_CADDY_AUTOSSL,
};
use crate::services::docker::{
    ContainerInfo, ContainerInfoView, CreateContainerRequest, CreateContainerRequestView, PortMap,
    PortMapView, PortPublish, PortPublishView,
};
use crate::error::{result_view, AppError, AppErrorView, ErrorCategory};
use crate::services::preflight::{PortConflict, PortConflictView, PreflightResult, PreflightResultView};
use crate::strmap::StringMap;
use crate::text::{decimal, push_decimal, to_decimal, trim, trimmed};
use vstd::prelude::*;

verus! {

/// What the caller asks to be installed.
#[derive(Debug, PartialEq, Eq)]
pub struct InstallApplicationRequest {
    pub template_id: String,
    pub name: Option<String>,
    pub image_override: Option<String>,
    /// Where a proxy forwards to.
    pub upstream_host: Option<String>,
    pub upstream_port: Option<u16>,
    /// The domain a proxy serves.
    pub domain: Option<String>,
    /// The host ports that the container's ports 80 and 443 are published
    /// on; 80 and 443 where none is given.
    pub listen_http_port: Option<u16>,
    pub listen_https_port: Option<u16>,
    pub env: Option<Vec<String>>,
    pub replace_existing: Option<bool>,
}

impl Clone for InstallApplicationRequest {
    fn clone(&self) -> (out: Self)
        ensures
            out.deep_view() == self.deep_view(),
    {
        InstallApplicationRequest {
            template_id: self.template_id.clone(),
            name: self.name.clone(),
            image_override: self.image_override.clone(),
            upstream_host: self.upstream_host.clone(),
            upstream_port: self.upstream_port,
            domain: self.domain.clone(),
            listen_http_port: self.listen_http_port,
            listen_https_port: self.listen_https_port,
            env: self.env.clone(),
            replace_existing: self.replace_existing,
        }
    }
}

/// The mathematical model of an [`InstallApplicationRequest`].
pub struct InstallApplicationRequestView {
    pub template_id: Seq<char>,
    pub name: Option<Seq<char>>,
    pub image_override: Option<Seq<char>>,
    pub upstream_host: Option<Seq<char>>,
    pub upstream_port: Option<u16>,
    pub domain: Option<Seq<char>>,
    pub listen_http_port: Option<u16>,
    pub listen_https_port: Option<u16>,
    pub env: Option<Seq<Seq<char>>>,
    pub replace_existing: Option<bool>,
}

impl DeepView for InstallApplicationRequest {
    type V = InstallApplicationRequestView;

    open spec fn deep_view(&self) -> InstallApplicationRequestView {
        InstallApplicationRequestView {
            template_id: self.template_id@,
            name: self.name.deep_view(),
            image_override: self.image_override.deep_view(),
            upstream_host: self.upstream_host.deep_view(),
            upstream_port: self.upstream_port,
            domain: self.domain.deep_view(),
            listen_http_port: self.listen_http_port,
            listen_https_port: self.listen_https_port,
            env: self.env.deep_view(),
            replace_existing: self.replace_existing,
        }
    }
}

/// The host port for the container's port 80.
pub open spec fn http_port(request: InstallApplicationRequestView) -> u16 {
    match request.listen_http_port {
        Some(port) => port,
        None => 80,
    }
}

/// The host port for the container's port 443.
pub open spec fn https_port(request: InstallApplicationRequestView) -> u16 {
    match request.listen_https_port {
        Some(port) => port,
        None => 443,
    }
}

/// The host ports an installation asks for, in rising order, each once.
pub open spec fn install_ports(request: InstallApplicationRequestView) -> Seq<u16> {
    let http = http_port(request);
    let https = https_port(request);
    if http == https {
        seq![http]
    } else if http < https {
        seq![http, https]
    } else {
        seq![https, http]
    }
}

/// The name of the container: the one asked for, else `mana-` and the
/// template's identifier.
pub open spec fn container_name(request: InstallApplicationRequestView) -> Seq<char> {
    match request.name {
        Some(name) => name,
        None => "mana-"@ + request.template_id,
    }
}

/// The image of the container: the one asked for, else the template's.
pub open spec fn install_image(
    request: InstallApplicationRequestView,
    template: ApplicationTemplateView,
) -> Seq<char> {
    match request.image_override {
        Some(image) => image,
        None => template.image,
    }
}

/// A text parameter as far as it says anything: trimmed, and absent where it
/// is missing or blank.
pub open spec fn given(text: Option<Seq<char>>) -> Option<Seq<char>> {
    match text {
        Some(s) => if trimmed(s).len() > 0 {
            Some(trimmed(s))
        } else {
            None
        },
        None => None,
    }
}

/// The upstream port: the one asked for, else 3000.
pub open spec fn upstream_port(request: InstallApplicationRequestView) -> u16 {
    match request.upstream_port {
        Some(port) => port,
        None => 3000,
    }
}

/// The upstream as `host:port`.
pub open spec fn upstream_address(host: Seq<char>, port: u16) -> Seq<char> {
    host + ":"@ + decimal(port as nat)
}

/// The labels that mark the container as an instance of the panel.
pub open spec fn install_labels(
    request: InstallApplicationRequestView,
    template: ApplicationTemplateView,
) -> Map<Seq<char>, Seq<char>> {
    let base = Map::<Seq<char>, Seq<char>>::empty().insert(LABEL_MANAGED@, "true"@).insert(
        LABEL_APP_ROLE@,
        APP_ROLE_VALUE@,
    ).insert(LABEL_APP_CATEGORY@, template.category).insert(LABEL_APP_TEMPLATE@, template.id).insert(
        LABEL_APP_NAME@,
        container_name(request),
    );
    let with_domain = match given(request.domain) {
        Some(domain) => base.insert(LABEL_PROXY_DOMAIN@, domain),
        None => base,
    };
    match given(request.upstream_host) {
        Some(host) => with_domain.insert(
            LABEL_PROXY_UPSTREAM@,
            upstream_address(host, upstream_port(request)),
        ),
        None => with_domain,
    }
}

/// The failure reported when a parameter that the template needs is missing.
pub open spec fn missing_parameter(name: Seq<char>) -> AppErrorView {
    AppErrorView {
        category: ErrorCategory::Validation,
        message: name + " is required for template 'caddy-autossl'"@,
    }
}

/// The command that overrides the image's own, if the template needs one.
/// The template that needs a domain runs a reverse proxy from the domain to
/// the upstream, and is refused where either is missing or blank.
pub open spec fn install_command(
    request: InstallApplicationRequestView,
    template: ApplicationTemplateView,
) -> Result<Option<Seq<Seq<char>>>, AppErrorView> {
    if template.id == TEMPLATE_CADDY_AUTOSSL@ {
        match given(request.domain) {
            None => Err(missing_parameter("domain"@)),
            Some(domain) => match given(request.upstream_host) {
                None => Err(missing_parameter("upstream_host"@)),
                Some(host) => Ok(
                    Some(
                        seq![
                            "caddy"@,
                            "reverse-proxy"@,
                            "--from"@,
                            domain,
                            "--to"@,
                            upstream_address(host, upstream_port(request)),
                        ],
                    ),
                ),
            },
        }
    } else {
        Ok(None)
    }
}

/// The publication of `container_port` on the host port `host_port` of all
/// interfaces.
pub open spec fn publication(container_port: Seq<char>, host_port: u16) -> PortPublishView {
    PortPublishView {
        container_port,
        bindings: seq![
            PortMapView { host_ip: Some("0.0.0.0"@), host_port: decimal(host_port as nat) },
        ],
    }
}

/// What the engine is asked to create for `request` from `template`, or the
/// reason why nothing can be created.
pub open spec fn creation(
    request: InstallApplicationRequestView,
    template: ApplicationTemplateView,
) -> Result<CreateContainerRequestView, AppErrorView> {
    match install_command(request, template) {
        Err(error) => Err(error),
        Ok(cmd) => Ok(
            CreateContainerRequestView {
                name: Some(container_name(request)),
                image: install_image(request, template),
                cmd,
                env: request.env,
                ports: Some(
                    seq![
                        publication("80/tcp"@, http_port(request)),
                        publication("443/tcp"@, https_port(request)),
                    ],
                ),
                volumes: None,
                restart_policy: Some("unless-stopped"@),
                labels: Some(install_labels(request, template)),
            },
        ),
    }
}

/// The message that reports the first of `conflicts` for `app_name`.
pub open spec fn conflict_message(app_name: Seq<char>, conflicts: Seq<PortConflictView>) -> Seq<
    char,
> {
    if conflicts.len() == 0 {
        "No port conflicts detected"@
    } else if conflicts[0].occupant_type == "container"@ {
        "Cannot start "@ + app_name + ": port "@ + decimal(conflicts[0].port as nat)
            + " is already occupied by '"@ + conflicts[0].occupied_by
            + "'. Please change listening port(s) or stop the existing container."@
    } else {
        "Cannot start "@ + app_name + ": port "@ + decimal(conflicts[0].port as nat)
            + " is already occupied by a host process. Please change listening port(s) or stop the existing process."@
    }
}

/// The failure reported when the ports of `app_name` are not free.
pub open spec fn conflict_error(app_name: Seq<char>, conflicts: Seq<PortConflictView>) -> AppErrorView {
    AppErrorView {
        category: ErrorCategory::Validation,
        message: conflict_message(app_name, conflicts),
    }
}

/// The failure reported for a template that the catalog does not hold.
pub open spec fn unknown_template(template_id: Seq<char>) -> AppErrorView {
    AppErrorView {
        category: ErrorCategory::Validation,
        message: "Unknown template_id: "@ + template_id,
    }
}

/// Whether an instance stands in the way of a new one of the proxy category:
/// it is of that category and running, created or restarting.
pub open spec fn is_replaceable(instance: ApplicationInstanceView) -> bool {
    instance.category == APP_CATEGORY_PROXY@ && (instance.state == "running"@ || instance.state
        == "created"@ || instance.state == "restarting"@)
}

/// The identifiers of the instances among `containers` that an installation
/// with replacement removes, in the engine's order.
pub open spec fn replaced(containers: Seq<ContainerInfoView>) -> Seq<Seq<char>>
    decreases containers.len(),
{
    if containers.len() == 0 {
        Seq::empty()
    } else {
        let before = replaced(containers.drop_last());
        let container = containers.last();
        if is_instance(container) && is_replaceable(instance_of(container)) {
            before.push(container.id)
        } else {
            before
        }
    }
}

/// A resolved installation: the request and its template.
pub struct InstallPlanView {
    pub request: InstallApplicationRequestView,
    pub template: ApplicationTemplateView,
}

/// The mathematical model of a [`PendingRemoval`].
pub struct PendingRemovalView {
    pub plan: InstallPlanView,
    /// The containers still to remove after the one under way.
    pub remaining: Seq<Seq<char>>,
}

/// The mathematical model of an [`InstallStep`].
pub enum InstallStepView {
    ListContainers(InstallPlanView),
    RemoveContainer(Seq<char>, PendingRemovalView),
    Preflight(Seq<u16>, InstallPlanView),
    CreateContainer(CreateContainerRequestView),
    Rejected(AppErrorView),
}

impl InstallPlanView {
    /// Whether the installation first removes the instances in its way: the
    /// request asks for it and the template is of the proxy category.
    pub open spec fn replaces(self) -> bool {
        self.request.replace_existing == Some(true) && self.template.category == APP_CATEGORY_PROXY@
    }

    /// The step that removes the first of `ids`, or, where none is left, the
    /// step that checks the ports.
    pub open spec fn removal(self, ids: Seq<Seq<char>>) -> InstallStepView {
        if ids.len() == 0 {
            InstallStepView::Preflight(install_ports(self.request), self)
        } else {
            InstallStepView::RemoveContainer(
                ids[0],
                PendingRemovalView { plan: self, remaining: ids.drop_first() },
            )
        }
    }

    /// The step after the engine listed all its containers.
    pub open spec fn after_listing(self, containers: Seq<ContainerInfoView>) -> InstallStepView {
        self.removal(replaced(containers))
    }

    /// The step after the ports were checked: with a conflict, the
    /// installation is refused with the message for the first one; else the
    /// container is created, unless a parameter that the template needs is
    /// missing.
    pub open spec fn after_preflight(self, result: PreflightResultView) -> InstallStepView {
        if !result.ok {
            InstallStepView::Rejected(conflict_error(self.request.template_id, result.conflicts))
        } else {
            match creation(self.request, self.template) {
                Ok(create) => InstallStepView::CreateContainer(create),
                Err(error) => InstallStepView::Rejected(error),
            }
        }
    }
}

impl PendingRemovalView {
    /// The step after the engine removed the container under way.
    pub open spec fn after_removal(self) -> InstallStepView {
        self.plan.removal(self.remaining)
    }
}

/// The first step of an installation. An unknown template is refused at
/// once, before anything is asked of the engine.
pub open spec fn begin(request: InstallApplicationRequestView) -> InstallStepView {
    match template_with_id(catalog(), request.template_id) {
        None => InstallStepView::Rejected(unknown_template(request.template_id)),
        Some(template) => {
            let plan = InstallPlanView { request, template };
            if plan.replaces() {
                InstallStepView::ListContainers(plan)
            } else {
                InstallStepView::Preflight(install_ports(request), plan)
            }
        },
    }
}

/// A resolved installation.
#[derive(Debug, PartialEq, Eq)]
pub struct InstallPlan {
    request: InstallApplicationRequest,
    template: ApplicationTemplate,
}

impl DeepView for InstallPlan {
    type V = InstallPlanView;

    closed spec fn deep_view(&self) -> InstallPlanView {
        InstallPlanView { request: self.request.deep_view(), template: self.template.deep_view() }
    }
}

/// An installation that waits for the engine's list of all containers.
#[derive(Debug, PartialEq, Eq)]
pub struct PendingListing {
    plan: InstallPlan,
}

impl DeepView for PendingListing {
    type V = InstallPlanView;

    closed spec fn deep_view(&self) -> InstallPlanView {
        self.plan.deep_view()
    }
}

/// An installation that waits for the removal of a container.
#[derive(Debug, PartialEq, Eq)]
pub struct PendingRemoval {
    plan: InstallPlan,
    remaining: Vec<String>,
}

impl DeepView for PendingRemoval {
    type V = PendingRemovalView;

    closed spec fn deep_view(&self) -> PendingRemovalView {
        PendingRemovalView { plan: self.plan.deep_view(), remaining: self.remaining.deep_view() }
    }
}

/// An installation that waits for the finding of the port preflight.
#[derive(Debug, PartialEq, Eq)]
pub struct PendingPreflight {
    plan: InstallPlan,
}

impl DeepView for PendingPreflight {
    type V = InstallPlanView;

    closed spec fn deep_view(&self) -> InstallPlanView {
        self.plan.deep_view()
    }
}

/// What the caller of an installation must do next.
#[derive(Debug, PartialEq, Eq)]
pub enum InstallStep {
    /// List all containers, running or not, and hand them to
    /// [`PendingListing::containers`].
    ListContainers(PendingListing),
    /// Remove this container by force, then call
    /// [`PendingRemoval::removed`].
    RemoveContainer(String, PendingRemoval),
    /// Run a port preflight for these ports with no exclusion, and hand its
    /// finding to [`PendingPreflight::checked`].
    Preflight(Vec<u16>, PendingPreflight),
    /// Ask the engine to create this container. What the engine answers is
    /// the result of the installation.
    CreateContainer(CreateContainerRequest),
    /// The installation is refused.
    Rejected(AppError),
}

impl DeepView for InstallStep {
    type V = InstallStepView;

    open spec fn deep_view(&self) -> InstallStepView {
        match self {
            InstallStep::ListContainers(pending) => InstallStepView::ListContainers(
                pending.deep_view(),
            ),
            InstallStep::RemoveContainer(id, pending) => InstallStepView::RemoveContainer(
                id@,
                pending.deep_view(),
            ),
            InstallStep::Preflight(ports, pending) => InstallStepView::Preflight(
                ports@,
                pending.deep_view(),
            ),
            InstallStep::CreateContainer(create) => InstallStepView::CreateContainer(
                create.deep_view(),
            ),
            InstallStep::Rejected(error) => InstallStepView::Rejected(error.deep_view()),
        }
    }
}

/// A text parameter as far as it says anything.
fn given_text(text: &Option<String>) -> (out: Option<&str>)
    ensures
        out.deep_view() == given(text.deep_view()),
{
    match text {
        Some(s) => {
            let t = trim(s.as_str());
            if t.unicode_len() > 0 {
                Some(t)
            } else {
                None
            }
        },
        None => None,
    }
}

/// The upstream as `host:port`.
fn upstream_text(host: &str, port: u16) -> (out: String)
    ensures
        out@ == upstream_address(host@, port),
{
    let mut out = host.to_owned();
    out.append(":");
    push_decimal(&mut out, port as u64);
    out
}

/// The publication of `container_port` on the host port `host_port`.
fn publish(container_port: &str, host_port: u16) -> (out: PortPublish)
    ensures
        out.deep_view() == publication(container_port@, host_port),
{
    let mut bindings: Vec<PortMap> = Vec::new();
    bindings.push(
        PortMap { host_ip: Some("0.0.0.0".to_string()), host_port: to_decimal(host_port as u64) },
    );
    let out = PortPublish { container_port: container_port.to_owned(), bindings };
    assert(out.bindings.deep_view() =~= publication(container_port@, host_port).bindings);
    out
}

/// The failure reported when a parameter that the template needs is missing.
fn missing(name: &str) -> (out: AppError)
    ensures
        out.deep_view() == missing_parameter(name@),
{
    let mut message = name.to_owned();
    message.append(" is required for template 'caddy-autossl'");
    AppError::Validation(message)
}

impl ApplicationManager {
    /// The host ports an installation asks for, in rising order, each once.
    pub fn requested_ports_for_install(
        &self,
        req: &InstallApplicationRequest,
        _template: &ApplicationTemplate,
    ) -> (out: Vec<u16>)
        ensures
            out@ == install_ports(req.deep_view()),
    {
        let http: u16 = match req.listen_http_port {
            Some(port) => port,
            None => 80,
        };
        let https: u16 = match req.listen_https_port {
            Some(port) => port,
            None => 443,
        };
        let mut out: Vec<u16> = Vec::new();
        if http == https {
            out.push(http);
        } else if http < https {
            out.push(http);
            out.push(https);
        } else {
            out.push(https);
            out.push(http);
        }
        assert(out@ =~= install_ports(req.deep_view()));
        out
    }

    /// The message that reports the first of `conflicts` for `app_name`.
    pub fn format_conflict_message(&self, app_name: &str, conflicts: &Vec<PortConflict>) -> (out:
        String)
        ensures
            out@ == conflict_message(app_name@, conflicts.deep_view()),
    {
        if conflicts.len() == 0 {
            return "No port conflicts detected".to_string();
        }
        let first = &conflicts[0];
        assert(conflicts.deep_view()[0] == first.deep_view());
        let mut out = "Cannot start ".to_string();
        out.append(app_name);
        out.append(": port ");
        push_decimal(&mut out, first.port as u64);
        if first.occupant_type.as_str().eq("container") {
            out.append(" is already occupied by '");
            out.append(first.occupied_by.as_str());
            out.append("'. Please change listening port(s) or stop the existing container.");
        } else {
            out.append(
                " is already occupied by a host process. Please change listening port(s) or stop the existing process.",
            );
        }
        out
    }

    /// The labels that mark the container as an instance of the panel.
    pub fn install_labels(&self, req: &InstallApplicationRequest, template: &ApplicationTemplate) -> (out:
        StringMap)
        ensures
            out.deep_view() == install_labels(req.deep_view(), template.deep_view()),
    {
        let name: String = match &req.name {
            Some(name) => name.clone(),
            None => {
                let mut name = "mana-".to_string();
                name.append(req.template_id.as_str());
                name
            },
        };
        let mut labels = StringMap::new();
        labels.insert(LABEL_MANAGED.to_string(), "true".to_string());
        labels.insert(LABEL_APP_ROLE.to_string(), APP_ROLE_VALUE.to_string());
        labels.insert(LABEL_APP_CATEGORY.to_string(), template.category.clone());
        labels.insert(LABEL_APP_TEMPLATE.to_string(), template.id.clone());
        labels.insert(LABEL_APP_NAME.to_string(), name);
        match given_text(&req.domain) {
            Some(domain) => {
                labels.insert(LABEL_PROXY_DOMAIN.to_string(), domain.to_owned());
            },
            None => {},
        }
        match given_text(&req.upstream_host) {
            Some(host) => {
                let port: u16 = match req.upstream_port {
                    Some(port) => port,
                    None => 3000,
                };
                labels.insert(LABEL_PROXY_UPSTREAM.to_string(), upstream_text(host, port));
            },
            None => {},
        }
        labels
    }

    /// What the engine is asked to create for `req` from `template`, or the
    /// reason why nothing can be created.
    pub fn build_create_request(
        &self,
        req: InstallApplicationRequest,
        template: ApplicationTemplate,
    ) -> (out: Result<CreateContainerRequest, AppError>)
        ensures
            result_view(out) == creation(req.deep_view(), template.deep_view()),
    {
        let cmd: Option<Vec<String>> = if template.id.as_str().eq(TEMPLATE_CADDY_AUTOSSL) {
            let domain = match given_text(&req.domain) {
                Some(domain) => domain,
                None => {
                    return Err(missing("domain"));
                },
            };
            let host = match given_text(&req.upstream_host) {
                Some(host) => host,
                None => {
                    return Err(missing("upstream_host"));
                },
            };
            let port: u16 = match req.upstream_port {
                Some(port) => port,
                None => 3000,
            };
            let mut cmd: Vec<String> = Vec::new();
            cmd.push("caddy".to_string());
            cmd.push("reverse-proxy".to_string());
            cmd.push("--from".to_string());
            cmd.push(domain.to_owned());
            cmd.push("--to".to_string());
            cmd.push(upstream_text(host, port));
            assert(cmd.deep_view() =~= seq![
                "caddy"@,
                "reverse-proxy"@,
                "--from"@,
                domain@,
                "--to"@,
                upstream_address(host@, port),
            ]);
            Some(cmd)
        } else {
            None
        };
        let labels = self.install_labels(&req, &template);
        let http: u16 = match req.listen_http_port {
            Some(port) => port,
            None => 80,
        };
        let https: u16 = match req.listen_https_port {
            Some(port) => port,
            None => 443,
        };
        let mut ports: Vec<PortPublish> = Vec::new();
        ports.push(publish("80/tcp", http));
        ports.push(publish("443/tcp", https));
        assert(ports.deep_view() =~= seq![
            publication("80/tcp"@, http),
            publication("443/tcp"@, https),
        ]);
        let name: String = match req.name {
            Some(name) => name,
            None => {
                let mut name = "mana-".to_string();
                name.append(req.template_id.as_str());
                name
            },
        };
        let image: String = match req.image_override {
            Some(image) => image,
            None => template.image,
        };
        Ok(
            CreateContainerRequest {
                name: Some(name),
                image,
                cmd,
                env: req.env,
                ports: Some(ports),
                volumes: None,
                restart_policy: Some("unless-stopped".to_string()),
                labels: Some(labels),
            },
        )
    }

    /// Starts the installation of `req`.
    pub fn install_application(&self, req: InstallApplicationRequest) -> (out: InstallStep)
        ensures
            out.deep_view() == begin(req.deep_view()),
    {
        match self.find_template(req.template_id.as_str()) {
            None => {
                let mut message = "Unknown template_id: ".to_string();
                message.append(req.template_id.as_str());
                InstallStep::Rejected(AppError::Validation(message))
            },
            Some(template) => {
                let replace = match req.replace_existing {
                    Some(flag) => flag,
                    None => false,
                };
                if replace && template.category.as_str().eq(APP_CATEGORY_PROXY) {
                    InstallStep::ListContainers(
                        PendingListing { plan: InstallPlan { request: req, template } },
                    )
                } else {
                    let ports = self.requested_ports_for_install(&req, &template);
                    InstallStep::Preflight(
                        ports,
                        PendingPreflight { plan: InstallPlan { request: req, template } },
                    )
                }
            },
        }
    }
}

/// Whether a container stands in the way of a new instance of the proxy
/// category.
fn container_is_replaced(container: &ContainerInfo) -> (out: bool)
    ensures
        out == (is_instance(container.deep_view()) && is_replaceable(
            instance_of(container.deep_view()),
        )),
{
    if !container_is_instance(container) {
        return false;
    }
    let of_category = match container.labels.get(LABEL_APP_CATEGORY) {
        Some(category) => category.as_str().eq(APP_CATEGORY_PROXY),
        None => "".eq(APP_CATEGORY_PROXY),
    };
    proof {
        reveal_strlit("");
        assert(""@ =~= Seq::<char>::empty());
    }
    let state = container.state.as_str();
    of_category && (state.eq("running") || state.eq("created") || state.eq("restarting"))
}

/// The step that removes the first of `ids`, or, where none is left, the
/// step that checks the ports.
fn removal_step(plan: InstallPlan, ids: Vec<String>) -> (out: InstallStep)
    ensures
        out.deep_view() == plan.deep_view().removal(ids.deep_view()),
{
    let mut remaining = ids;
    if remaining.len() > 0 {
        let ghost all = remaining.deep_view();
        let id = remaining.remove(0);
        assert(all[0] == id@);
        assert(remaining.deep_view() =~= all.drop_first());
        InstallStep::RemoveContainer(id, PendingRemoval { plan, remaining })
    } else {
        let manager = ApplicationManager::new();
        let ports = manager.requested_ports_for_install(&plan.request, &plan.template);
        InstallStep::Preflight(ports, PendingPreflight { plan })
    }
}

impl PendingListing {
    /// Takes the engine's list of all containers.
    pub fn containers(self, containers: &Vec<ContainerInfo>) -> (out: InstallStep)
        ensures
            out.deep_view() == self.deep_view().after_listing(containers.deep_view()),
    {
        let ghost all = containers.deep_view();
        let mut ids: Vec<String> = Vec::new();
        let mut i: usize = 0;
        assert(ids.deep_view() =~= Seq::empty());
        while i < containers.len()
            invariant
                i <= containers.len(),
                all == containers.deep_view(),
                ids.deep_view() == replaced(all.take(i as int)),
            decreases containers.len() - i,
        {
            proof {
                assert(all.take(i + 1).drop_last() =~= all.take(i as int));
                assert(all.take(i + 1).last() == containers@[i as int].deep_view());
            }
            let ghost before = ids.deep_view();
            if container_is_replaced(&containers[i]) {
                ids.push(containers[i].id.clone());
                assert(ids.deep_view() =~= before.push(all[i as int].id));
            }
            i += 1;
        }
        assert(all.take(i as int) =~= all);
        removal_step(self.plan, ids)
    }
}

impl PendingRemoval {
    /// Takes the news that the engine removed the container under way.
    pub fn removed(self) -> (out: InstallStep)
        ensures
            out.deep_view() == self.deep_view().after_removal(),
    {
        removal_step(self.plan, self.remaining)
    }
}

impl PendingPreflight {
    /// Takes the finding of the port preflight.
    pub fn checked(self, result: &PreflightResult) -> (out: InstallStep)
        ensures
            out.deep_view() == self.deep_view().after_preflight(result.deep_view()),
    {
        let manager = ApplicationManager::new();
        if !result.ok {
            let message = manager.format_conflict_message(
                self.plan.request.template_id.as_str(),
                &result.conflicts,
            );
            return InstallStep::Rejected(AppError::Validation(message));
        }
        match manager.build_create_request(self.plan.request, self.plan.template) {
            Ok(create) => InstallStep::CreateContainer(create),
            Err(error) => InstallStep::Rejected(error),
        }
    }
}

} // verus!
