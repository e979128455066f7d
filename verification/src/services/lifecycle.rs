//! Starting, stopping and removing an instance.
//!
//! Only the start carries a rule of its own: the ports that the instance
//! publishes must be free, the instance's own claim on them left aside.
//! Stopping and removing are handed to the engine as they are.

use crate::error::{result_view, AppError, AppErrorView, ErrorCategory};
use crate::services::application::{
    container_is_instance, is_instance, ApplicationManager, LABEL_APP_TEMPLATE,
    TEMPLATE_CADDY_AUTOSSL, TEMPLATE_NGINX_STANDARD,
};
use crate::services::docker::{ContainerInfo, ContainerInfoView, PortBinding, PortBindingView};
use crate::services::install::conflict_error;
use crate::services::preflight::{
    outcome, PortPreflight, PortPreflightView, PreflightResult, PreflightResultView,
    ProbeOutcomeView,
};
use crate::services::preflight_proofs::lemma_excluded_container_is_not_reported;
use crate::text::starts_with;
use vstd::prelude::*;

verus! {

/// A call that the caller hands to the engine as it is.
#[derive(Debug, PartialEq, Eq)]
pub enum EngineCall {
    /// Start the container.
    Start(String),
    /// Stop the container.
    Stop(String),
    /// Remove the container, by force if the flag is set.
    Remove(String, bool),
}

/// The mathematical model of an [`EngineCall`].
pub enum EngineCallView {
    Start(Seq<char>),
    Stop(Seq<char>),
    Remove(Seq<char>, bool),
}

impl DeepView for EngineCall {
    type V = EngineCallView;

    open spec fn deep_view(&self) -> EngineCallView {
        match self {
            EngineCall::Start(id) => EngineCallView::Start(id@),
            EngineCall::Stop(id) => EngineCallView::Stop(id@),
            EngineCall::Remove(id, force) => EngineCallView::Remove(id@, *force),
        }
    }
}

/// Whether a container is the one asked for: its identifier is `wanted`, or
/// begins with it.
pub open spec fn answers_to(container: ContainerInfoView, wanted: Seq<char>) -> bool {
    container.id == wanted || wanted.is_prefix_of(container.id)
}

/// The first of `containers` that answers to `wanted`.
pub open spec fn container_for(containers: Seq<ContainerInfoView>, wanted: Seq<char>) -> Option<
    ContainerInfoView,
>
    decreases containers.len(),
{
    if containers.len() == 0 {
        None
    } else if answers_to(containers[0], wanted) {
        Some(containers[0])
    } else {
        container_for(containers.drop_first(), wanted)
    }
}

/// The host ports that `ports` publish, in order.
pub open spec fn published_ports(ports: Seq<PortBindingView>) -> Seq<u16>
    decreases ports.len(),
{
    if ports.len() == 0 {
        Seq::empty()
    } else {
        let before = published_ports(ports.drop_last());
        match ports.last().public_port {
            Some(port) => before.push(port),
            None => before,
        }
    }
}

/// Whether the container came from a template that publishes the web ports.
pub open spec fn from_publishing_template(container: ContainerInfoView) -> bool {
    container.labels.contains_key(LABEL_APP_TEMPLATE@) && (container.labels[LABEL_APP_TEMPLATE@]
        == TEMPLATE_NGINX_STANDARD@ || container.labels[LABEL_APP_TEMPLATE@]
        == TEMPLATE_CADDY_AUTOSSL@)
}

/// The ports to check before a container is started: the host ports it
/// publishes; where it publishes none, 80 and 443 if it came from a template
/// that publishes them, else none.
pub open spec fn start_ports(container: ContainerInfoView) -> Seq<u16> {
    let published = published_ports(container.ports);
    if published.len() > 0 {
        published
    } else if from_publishing_template(container) {
        seq![80u16, 443u16]
    } else {
        Seq::empty()
    }
}

/// The failure reported when no container answers to `wanted`.
pub open spec fn not_found(wanted: Seq<char>) -> AppErrorView {
    AppErrorView {
        category: ErrorCategory::NotFound,
        message: "Application container "@ + wanted + " not found"@,
    }
}

/// The failure reported when the container is not an instance of the panel.
pub open spec fn not_managed() -> AppErrorView {
    AppErrorView {
        category: ErrorCategory::Validation,
        message: "Target container is not a managed application instance"@,
    }
}

/// The preflight that gates the start of the container `wanted` among
/// `containers`, or the reason why it cannot be started: no container
/// answers to `wanted`, or the one that does is not an instance of the
/// panel. The preflight leaves the container itself out.
pub open spec fn start_check(containers: Seq<ContainerInfoView>, wanted: Seq<char>) -> Result<
    PortPreflightView,
    AppErrorView,
> {
    match container_for(containers, wanted) {
        None => Err(not_found(wanted)),
        Some(container) => if !is_instance(container) {
            Err(not_managed())
        } else {
            Ok(PortPreflightView::begin(start_ports(container), Some(container.id)))
        },
    }
}

/// What a start comes to once its preflight has found `result`: the call to
/// the engine, or the refusal for the first conflict.
pub open spec fn start_decision(wanted: Seq<char>, result: PreflightResultView) -> Result<
    EngineCallView,
    AppErrorView,
> {
    if !result.ok {
        Err(conflict_error("application"@, result.conflicts))
    } else {
        Ok(EngineCallView::Start(wanted))
    }
}

/// The host ports that `ports` publish, in order.
fn ports_published(ports: &Vec<PortBinding>) -> (out: Vec<u16>)
    ensures
        out@ == published_ports(ports.deep_view()),
{
    let ghost all = ports.deep_view();
    let mut out: Vec<u16> = Vec::new();
    let mut i: usize = 0;
    while i < ports.len()
        invariant
            i <= ports.len(),
            all == ports.deep_view(),
            out@ == published_ports(all.take(i as int)),
        decreases ports.len() - i,
    {
        proof {
            assert(all.take(i + 1).drop_last() =~= all.take(i as int));
            assert(all.take(i + 1).last() == ports@[i as int].deep_view());
        }
        match ports[i].public_port {
            Some(port) => {
                out.push(port);
            },
            None => {},
        }
        i += 1;
    }
    assert(all.take(i as int) =~= all);
    out
}

impl ApplicationManager {
    /// Starts the preflight that gates the start of the container
    /// `container_id`, where `containers` is the engine's list of all
    /// containers, running or not.
    pub fn preflight_start(&self, container_id: &str, containers: &Vec<ContainerInfo>) -> (out:
        Result<PortPreflight, AppError>)
        ensures
            result_view(out) == start_check(containers.deep_view(), container_id@),
    {
        let ghost all = containers.deep_view();
        let mut i: usize = 0;
        assert(all.skip(0) =~= all);
        while i < containers.len()
            invariant
                i <= containers.len(),
                all == containers.deep_view(),
                container_for(all, container_id@) == container_for(
                    all.skip(i as int),
                    container_id@,
                ),
            decreases containers.len() - i,
        {
            proof {
                assert(all.skip(i as int)[0] == containers@[i as int].deep_view());
                assert(all.skip(i as int).drop_first() =~= all.skip(i + 1));
            }
            let target = &containers[i];
            if target.id.as_str().eq(container_id) || starts_with(target.id.as_str(), container_id) {
                if !container_is_instance(target) {
                    return Err(
                        AppError::Validation(
                            "Target container is not a managed application instance".to_string(),
                        ),
                    );
                }
                let mut ports = ports_published(&target.ports);
                if ports.len() == 0 {
                    let publishing = match target.labels.get(LABEL_APP_TEMPLATE) {
                        Some(template) => template.as_str().eq(TEMPLATE_NGINX_STANDARD)
                            || template.as_str().eq(TEMPLATE_CADDY_AUTOSSL),
                        None => false,
                    };
                    if publishing {
                        ports.push(80);
                        ports.push(443);
                        assert(ports@ =~= seq![80u16, 443u16]);
                    }
                }
                assert(ports@ =~= start_ports(target.deep_view()));
                return Ok(PortPreflight::new(ports.as_slice(), Some(target.id.as_str())));
            }
            i += 1;
        }
        let mut message = "Application container ".to_string();
        message.append(container_id);
        message.append(" not found");
        Err(AppError::NotFound(message))
    }

    /// Decides the start of the container `container_id` once its preflight
    /// has found `preflight`.
    pub fn start_application(&self, container_id: &str, preflight: &PreflightResult) -> (out:
        Result<EngineCall, AppError>)
        ensures
            result_view(out) == start_decision(container_id@, preflight.deep_view()),
    {
        if !preflight.ok {
            let message = self.format_conflict_message("application", &preflight.conflicts);
            return Err(AppError::Validation(message));
        }
        Ok(EngineCall::Start(container_id.to_owned()))
    }

    /// The call that stops the container `container_id`.
    pub fn stop_application(&self, container_id: &str) -> (out: EngineCall)
        ensures
            out.deep_view() == EngineCallView::Stop(container_id@),
    {
        EngineCall::Stop(container_id.to_owned())
    }

    /// The call that removes the container `container_id`.
    pub fn remove_application(&self, container_id: &str, force: bool) -> (out: EngineCall)
        ensures
            out.deep_view() == EngineCallView::Remove(container_id@, force),
    {
        EngineCall::Remove(container_id.to_owned(), force)
    }

    /// Starts a preflight for `requested_ports`, leaving out the container
    /// `exclude_container_id` if one is given.
    pub fn preflight_ports(&self, requested_ports: &[u16], exclude_container_id: Option<&str>) -> (out:
        PortPreflight)
        ensures
            out.deep_view() == PortPreflightView::begin(
                requested_ports@,
                exclude_container_id.deep_view(),
            ),
    {
        PortPreflight::new(requested_ports, exclude_container_id)
    }
}

/// The preflight that gates the start of a container never names that
/// container as the occupant of a port, whatever the engine lists as running
/// and whatever the probes find.
pub proof fn lemma_start_leaves_own_claim_aside(
    containers: Seq<ContainerInfoView>,
    wanted: Seq<char>,
    running: Seq<ContainerInfoView>,
    host: spec_fn(u16) -> ProbeOutcomeView,
)
    requires
        start_check(containers, wanted) is Ok,
    ensures
        container_for(containers, wanted) is Some,
        start_check(containers, wanted)->Ok_0 == PortPreflightView::begin(
            start_ports(container_for(containers, wanted)->0),
            Some(container_for(containers, wanted)->0.id),
        ),
        forall|k: int|
            0 <= k < outcome(
                start_ports(container_for(containers, wanted)->0),
                Some(container_for(containers, wanted)->0.id),
                running,
                host,
            ).conflicts.len() ==> (#[trigger] outcome(
                start_ports(container_for(containers, wanted)->0),
                Some(container_for(containers, wanted)->0.id),
                running,
                host,
            ).conflicts[k]).occupant_container_id != Some(container_for(containers, wanted)->0.id),
{
    let target = container_for(containers, wanted)->0;
    lemma_excluded_container_is_not_reported(
        start_ports(target),
        Some(target.id),
        running,
        host,
        0,
    );
}

} // verus!
