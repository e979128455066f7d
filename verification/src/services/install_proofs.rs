//! What holds of every installation, proved over the model of its steps.

use crate::services::application::{
    caddy_template, catalog, instance_of, is_instance, nginx_template, template_with_id,
    ApplicationTemplateView, APP_CATEGORY_PROXY, TEMPLATE_CADDY_AUTOSSL, TEMPLATE_NGINX_STANDARD,
};
use crate::services::docker::ContainerInfoView;
use crate::error::ErrorCategory;
use crate::services::install::{
    begin, given, install_ports, is_replaceable, replaced, unknown_template,
    InstallApplicationRequestView, InstallPlanView, InstallStepView,
};
use crate::services::preflight::PreflightResultView;
use vstd::prelude::*;

verus! {

/// How many removals a step still has before it.
pub open spec fn removals_left(step: InstallStepView) -> nat {
    match step {
        InstallStepView::RemoveContainer(_, pending) => pending.remaining.len() + 1,
        _ => 0,
    }
}

/// The containers that are removed from `step` on, in order, where the
/// engine carries out every removal.
pub open spec fn removals(step: InstallStepView) -> Seq<Seq<char>>
    decreases removals_left(step),
{
    match step {
        InstallStepView::RemoveContainer(id, pending) => seq![id] + removals(
            pending.after_removal(),
        ),
        _ => Seq::empty(),
    }
}

/// The first step from `step` on that is not a removal, where the engine
/// carries out every removal.
pub open spec fn after_removals(step: InstallStepView) -> InstallStepView
    decreases removals_left(step),
{
    match step {
        InstallStepView::RemoveContainer(_, pending) => after_removals(pending.after_removal()),
        _ => step,
    }
}

/// The two templates of the catalog are found under their identifiers, and
/// nothing else is found.
pub proof fn lemma_catalog_lookup(id: Seq<char>)
    ensures
        template_with_id(catalog(), id) == if id == TEMPLATE_NGINX_STANDARD@ {
            Some(nginx_template())
        } else if id == TEMPLATE_CADDY_AUTOSSL@ {
            Some(caddy_template())
        } else {
            None
        },
{
    reveal_with_fuel(template_with_id, 3);
    assert(catalog().drop_first() =~= seq![caddy_template()]);
    assert(catalog().drop_first().drop_first() =~= Seq::empty());
}

/// An installation from a template that the catalog does not hold is refused
/// with a validation error at its first step: nothing is asked of the engine
/// or of the host.
pub proof fn lemma_unknown_template_is_refused(request: InstallApplicationRequestView)
    requires
        request.template_id != TEMPLATE_NGINX_STANDARD@,
        request.template_id != TEMPLATE_CADDY_AUTOSSL@,
    ensures
        begin(request) == InstallStepView::Rejected(unknown_template(request.template_id)),
        unknown_template(request.template_id).category == ErrorCategory::Validation,
{
    lemma_catalog_lookup(request.template_id);
}

/// An installation from the template that needs a domain, asked for without
/// a domain or without an upstream host, is never created: its first step is
/// not yet the refusal, but whatever the preflight finds, the step after it
/// is a refusal with a validation error.
pub proof fn lemma_missing_parameter_is_refused(
    request: InstallApplicationRequestView,
    result: PreflightResultView,
)
    requires
        request.template_id == TEMPLATE_CADDY_AUTOSSL@,
        given(request.domain) is None || given(request.upstream_host) is None,
    ensures
        template_with_id(catalog(), request.template_id) == Some(caddy_template()),
        (InstallPlanView { request, template: caddy_template() }).after_preflight(result)
            is Rejected,
        (InstallPlanView { request, template: caddy_template() }).after_preflight(
            result,
        )->Rejected_0.category == ErrorCategory::Validation,
{
    lemma_catalog_lookup(request.template_id);
    reveal_strlit("nginx-standard");
    reveal_strlit("caddy-autossl");
    assert(TEMPLATE_NGINX_STANDARD@.len() != TEMPLATE_CADDY_AUTOSSL@.len());
}

/// Every container that stands in the way is among the replaced ones.
pub proof fn lemma_replaced_holds_every_instance(containers: Seq<ContainerInfoView>, at: int)
    requires
        0 <= at < containers.len(),
        is_instance(containers[at]),
        is_replaceable(instance_of(containers[at])),
    ensures
        replaced(containers).contains(containers[at].id),
    decreases containers.len(),
{
    let before = replaced(containers.drop_last());
    if at == containers.len() - 1 {
        assert(replaced(containers)[before.len() as int] == containers[at].id);
    } else {
        lemma_replaced_holds_every_instance(containers.drop_last(), at);
        let k = choose|k: int| 0 <= k < before.len() && before[k] == containers[at].id;
        assert(replaced(containers)[k] == containers[at].id);
    }
}

/// The removals that follow the removal step for `ids` are `ids`, and the
/// step after them checks the ports.
proof fn lemma_removal_chain(plan: InstallPlanView, ids: Seq<Seq<char>>)
    ensures
        removals(plan.removal(ids)) == ids,
        after_removals(plan.removal(ids)) == InstallStepView::Preflight(
            install_ports(plan.request),
            plan,
        ),
    decreases ids.len(),
{
    if ids.len() > 0 {
        lemma_removal_chain(plan, ids.drop_first());
        assert(seq![ids[0]] + ids.drop_first() =~= ids);
    }
}

/// An installation that replaces, from a template of the proxy category,
/// first lists the containers; then removes every instance of that category
/// that is running, created or restarting, and nothing else; and only then
/// checks its ports.
pub proof fn lemma_replacement_precedes_preflight(
    request: InstallApplicationRequestView,
    template: ApplicationTemplateView,
    containers: Seq<ContainerInfoView>,
)
    requires
        template_with_id(catalog(), request.template_id) == Some(template),
        request.replace_existing == Some(true),
        template.category == APP_CATEGORY_PROXY@,
    ensures
        begin(request) == InstallStepView::ListContainers(InstallPlanView { request, template }),
        removals((InstallPlanView { request, template }).after_listing(containers)) == replaced(
            containers,
        ),
        after_removals((InstallPlanView { request, template }).after_listing(containers))
            == InstallStepView::Preflight(
            install_ports(request),
            InstallPlanView { request, template },
        ),
        forall|i: int|
            0 <= i < containers.len() && is_instance(#[trigger] containers[i]) && is_replaceable(
                instance_of(containers[i]),
            ) ==> replaced(containers).contains(containers[i].id),
{
    let plan = InstallPlanView { request, template };
    lemma_removal_chain(plan, replaced(containers));
    assert forall|i: int|
        0 <= i < containers.len() && is_instance(#[trigger] containers[i]) && is_replaceable(
            instance_of(containers[i]),
        ) implies replaced(containers).contains(containers[i].id) by {
        lemma_replaced_holds_every_instance(containers, i);
    }
}

} // verus!
