//! The catalog of deployment templates and the instances derived from the
//! engine's labelled containers.

use crate::services::docker::{
    ContainerInfo, ContainerInfoView, ImageInfo, ImageInfoView, PortBindingView,
};
use crate::strmap::StringMap;
use crate::text::{contains_char, trim, trimmed};
use vstd::prelude::*;

verus! {

/// Label that marks a container as created by the panel; its value is `true`.
pub const LABEL_MANAGED: &'static str = "mana-panel.managed";

/// Label that holds the role of a managed container.
pub const LABEL_APP_ROLE: &'static str = "mana-panel.app.role";

/// Label that holds the category of the template an instance came from.
pub const LABEL_APP_CATEGORY: &'static str = "mana-panel.app.category";

/// Label that holds the identifier of the template an instance came from.
pub const LABEL_APP_TEMPLATE: &'static str = "mana-panel.app.template";

/// Label that holds the display name of an instance.
pub const LABEL_APP_NAME: &'static str = "mana-panel.app.name";

/// Label that holds the domain a proxy serves.
pub const LABEL_PROXY_DOMAIN: &'static str = "mana-panel.proxy.site";

/// Label that holds the `host:port` address a proxy forwards to.
pub const LABEL_PROXY_UPSTREAM: &'static str = "mana-panel.proxy.upstream";

/// The role of every application instance.
pub const APP_ROLE_VALUE: &'static str = "application";

/// The category of the templates that listen on the web ports.
pub const APP_CATEGORY_PROXY: &'static str = "proxy";

/// Identifier of the plain web server template.
pub const TEMPLATE_NGINX_STANDARD: &'static str = "nginx-standard";

/// Identifier of the reverse proxy template that needs a domain.
pub const TEMPLATE_CADDY_AUTOSSL: &'static str = "caddy-autossl";

/// A predefined recipe for deploying a container-based application.
#[derive(Debug, PartialEq, Eq)]
pub struct ApplicationTemplate {
    pub id: String,
    pub name: String,
    pub description: String,
    pub category: String,
    pub image: String,
    pub default_ports: Vec<u16>,
    pub requires_domain: bool,
    pub requires_upstream: bool,
}

impl Clone for ApplicationTemplate {
    fn clone(&self) -> (out: Self)
        ensures
            out.deep_view() == self.deep_view(),
    {
        ApplicationTemplate {
            id: self.id.clone(),
            name: self.name.clone(),
            description: self.description.clone(),
            category: self.category.clone(),
            image: self.image.clone(),
            default_ports: self.default_ports.clone(),
            requires_domain: self.requires_domain,
            requires_upstream: self.requires_upstream,
        }
    }
}

/// The mathematical model of an [`ApplicationTemplate`].
pub struct ApplicationTemplateView {
    pub id: Seq<char>,
    pub name: Seq<char>,
    pub description: Seq<char>,
    pub category: Seq<char>,
    pub image: Seq<char>,
    pub default_ports: Seq<u16>,
    pub requires_domain: bool,
    pub requires_upstream: bool,
}

impl DeepView for ApplicationTemplate {
    type V = ApplicationTemplateView;

    open spec fn deep_view(&self) -> ApplicationTemplateView {
        ApplicationTemplateView {
            id: self.id@,
            name: self.name@,
            description: self.description@,
            category: self.category@,
            image: self.image@,
            default_ports: self.default_ports@,
            requires_domain: self.requires_domain,
            requires_upstream: self.requires_upstream,
        }
    }
}

/// One port of an instance.
#[derive(Debug, PartialEq, Eq)]
pub struct ApplicationPort {
    pub ip: String,
    pub private_port: u16,
    pub public_port: Option<u16>,
    pub protocol: String,
}

impl Clone for ApplicationPort {
    fn clone(&self) -> (out: Self)
        ensures
            out == *self,
    {
        ApplicationPort {
            ip: self.ip.clone(),
            private_port: self.private_port,
            public_port: self.public_port,
            protocol: self.protocol.clone(),
        }
    }
}

/// The mathematical model of an [`ApplicationPort`].
pub struct ApplicationPortView {
    pub ip: Seq<char>,
    pub private_port: u16,
    pub public_port: Option<u16>,
    pub protocol: Seq<char>,
}

impl DeepView for ApplicationPort {
    type V = ApplicationPortView;

    open spec fn deep_view(&self) -> ApplicationPortView {
        ApplicationPortView {
            ip: self.ip@,
            private_port: self.private_port,
            public_port: self.public_port,
            protocol: self.protocol@,
        }
    }
}

/// A container that the panel recognizes as one of its own by its labels.
/// Instances are never stored: each listing derives them anew from what the
/// engine reports.
#[derive(Debug, PartialEq, Eq)]
pub struct ApplicationInstance {
    pub id: String,
    pub name: String,
    pub template_id: String,
    pub category: String,
    pub image: String,
    pub state: String,
    pub status: String,
    pub ports: Vec<ApplicationPort>,
    pub labels: StringMap,
}

impl Clone for ApplicationInstance {
    fn clone(&self) -> (out: Self)
        ensures
            out.deep_view() == self.deep_view(),
    {
        let ports = self.ports.clone();
        assert(ports@ =~= self.ports@);
        assert(ports.deep_view() =~= self.ports.deep_view());
        ApplicationInstance {
            id: self.id.clone(),
            name: self.name.clone(),
            template_id: self.template_id.clone(),
            category: self.category.clone(),
            image: self.image.clone(),
            state: self.state.clone(),
            status: self.status.clone(),
            ports,
            labels: self.labels.clone(),
        }
    }
}

/// The mathematical model of an [`ApplicationInstance`].
pub struct ApplicationInstanceView {
    pub id: Seq<char>,
    pub name: Seq<char>,
    pub template_id: Seq<char>,
    pub category: Seq<char>,
    pub image: Seq<char>,
    pub state: Seq<char>,
    pub status: Seq<char>,
    pub ports: Seq<ApplicationPortView>,
    pub labels: Map<Seq<char>, Seq<char>>,
}

impl DeepView for ApplicationInstance {
    type V = ApplicationInstanceView;

    open spec fn deep_view(&self) -> ApplicationInstanceView {
        ApplicationInstanceView {
            id: self.id@,
            name: self.name@,
            template_id: self.template_id@,
            category: self.category@,
            image: self.image@,
            state: self.state@,
            status: self.status@,
            ports: self.ports.deep_view(),
            labels: self.labels.deep_view(),
        }
    }
}

/// The plain web server template.
pub open spec fn nginx_template() -> ApplicationTemplateView {
    ApplicationTemplateView {
        id: TEMPLATE_NGINX_STANDARD@,
        name: "Nginx-Standard"@,
        description: "Standard Nginx container template"@,
        category: APP_CATEGORY_PROXY@,
        image: "nginx:stable-alpine"@,
        default_ports: seq![80u16, 443u16],
        requires_domain: false,
        requires_upstream: false,
    }
}

/// The reverse proxy template, which needs a domain and an upstream.
pub open spec fn caddy_template() -> ApplicationTemplateView {
    ApplicationTemplateView {
        id: TEMPLATE_CADDY_AUTOSSL@,
        name: "Caddy-AutoSSL"@,
        description: "Caddy reverse proxy template with automatic HTTPS using a domain"@,
        category: APP_CATEGORY_PROXY@,
        image: "caddy:2-alpine"@,
        default_ports: seq![80u16, 443u16],
        requires_domain: true,
        requires_upstream: true,
    }
}

/// The catalog, in its fixed order.
pub open spec fn catalog() -> Seq<ApplicationTemplateView> {
    seq![nginx_template(), caddy_template()]
}

/// The first template of `templates` with the identifier `id`.
pub open spec fn template_with_id(
    templates: Seq<ApplicationTemplateView>,
    id: Seq<char>,
) -> Option<ApplicationTemplateView>
    decreases templates.len(),
{
    if templates.len() == 0 {
        None
    } else if templates[0].id == id {
        Some(templates[0])
    } else {
        template_with_id(templates.drop_first(), id)
    }
}

/// Whether `labels` holds `value` for `key`.
pub open spec fn labelled(labels: Map<Seq<char>, Seq<char>>, key: Seq<char>, value: Seq<char>) -> bool {
    labels.contains_key(key) && labels[key] == value
}

/// What `labels` holds for `key`, or the empty text.
pub open spec fn label_or_empty(labels: Map<Seq<char>, Seq<char>>, key: Seq<char>) -> Seq<char> {
    if labels.contains_key(key) {
        labels[key]
    } else {
        Seq::empty()
    }
}

/// Whether a container is an application instance of the panel: it carries
/// the label that marks it as managed and the role of an application.
pub open spec fn is_instance(container: ContainerInfoView) -> bool {
    labelled(container.labels, LABEL_MANAGED@, "true"@) && labelled(
        container.labels,
        LABEL_APP_ROLE@,
        APP_ROLE_VALUE@,
    )
}

/// The display name of an instance: the name label, else the first name the
/// engine gave, else `unnamed`.
pub open spec fn instance_name(container: ContainerInfoView) -> Seq<char> {
    if container.labels.contains_key(LABEL_APP_NAME@) {
        container.labels[LABEL_APP_NAME@]
    } else if container.names.len() > 0 {
        container.names[0]
    } else {
        "unnamed"@
    }
}

/// A container's port as an instance's port.
pub open spec fn instance_port(port: PortBindingView) -> ApplicationPortView {
    ApplicationPortView {
        ip: port.ip,
        private_port: port.private_port,
        public_port: port.public_port,
        protocol: port.port_type,
    }
}

/// A container's ports as an instance's ports.
pub open spec fn instance_ports(ports: Seq<PortBindingView>) -> Seq<ApplicationPortView> {
    Seq::new(ports.len(), |i: int| instance_port(ports[i]))
}

/// The instance that a container is seen as.
pub open spec fn instance_of(container: ContainerInfoView) -> ApplicationInstanceView {
    ApplicationInstanceView {
        id: container.id,
        name: instance_name(container),
        template_id: label_or_empty(container.labels, LABEL_APP_TEMPLATE@),
        category: label_or_empty(container.labels, LABEL_APP_CATEGORY@),
        image: container.image,
        state: container.state,
        status: container.status,
        ports: instance_ports(container.ports),
        labels: container.labels,
    }
}

/// The instances among `containers`, in the engine's order.
pub open spec fn instances_of(containers: Seq<ContainerInfoView>) -> Seq<ApplicationInstanceView>
    decreases containers.len(),
{
    if containers.len() == 0 {
        Seq::empty()
    } else {
        let before = instances_of(containers.drop_last());
        if is_instance(containers.last()) {
            before.push(instance_of(containers.last()))
        } else {
            before
        }
    }
}

/// `image` with the tag `latest` where it names none.
pub open spec fn with_default_tag(image: Seq<char>) -> Seq<char> {
    if image.contains(':') {
        image
    } else {
        image + ":latest"@
    }
}

/// Whether `tag` names `target`, as given or with the default tag.
pub open spec fn tag_names(tag: Seq<char>, target: Seq<char>) -> bool {
    tag == target || tag == with_default_tag(target)
}

/// Whether one of `images` carries `image` as a tag, as given or with the
/// default tag. Whitespace around `image` does not count, and a blank `image`
/// names nothing.
pub open spec fn image_listed(images: Seq<ImageInfoView>, image: Seq<char>) -> bool {
    let target = trimmed(image);
    target.len() > 0 && exists|i: int, j: int|
        0 <= i < images.len() && 0 <= j < images[i].repo_tags.len() && #[trigger] tag_names(
            images[i].repo_tags[j],
            target,
        )
}

/// Whether the container is an application instance of the panel.
pub fn container_is_instance(container: &ContainerInfo) -> (out: bool)
    ensures
        out == is_instance(container.deep_view()),
{
    container.labels.has(LABEL_MANAGED, "true") && container.labels.has(
        LABEL_APP_ROLE,
        APP_ROLE_VALUE,
    )
}

/// What `labels` holds for `key`, or the empty text.
fn label_or_default(labels: &StringMap, key: &str) -> (out: String)
    ensures
        out@ == label_or_empty(labels.deep_view(), key@),
{
    match labels.get(key) {
        Some(value) => value.clone(),
        None => String::new(),
    }
}

/// The instance that a container is seen as.
pub fn instance_from(container: &ContainerInfo) -> (out: ApplicationInstance)
    ensures
        out.deep_view() == instance_of(container.deep_view()),
{
    let name: String = match container.labels.get(LABEL_APP_NAME) {
        Some(label) => label.clone(),
        None => if container.names.len() > 0 {
            container.names[0].clone()
        } else {
            "unnamed".to_string()
        },
    };
    let ghost bindings = container.deep_view().ports;
    let mut ports: Vec<ApplicationPort> = Vec::new();
    let mut i: usize = 0;
    while i < container.ports.len()
        invariant
            i <= container.ports.len(),
            bindings == container.deep_view().ports,
            ports.len() == i,
            forall|k: int|
                0 <= k < i ==> (#[trigger] ports.deep_view()[k]) == instance_port(bindings[k]),
        decreases container.ports.len() - i,
    {
        let binding = &container.ports[i];
        let ghost before = ports.deep_view();
        assert(bindings[i as int] == binding.deep_view());
        ports.push(
            ApplicationPort {
                ip: binding.ip.clone(),
                private_port: binding.private_port,
                public_port: binding.public_port,
                protocol: binding.port_type.clone(),
            },
        );
        assert(ports.deep_view() =~= before.push(instance_port(bindings[i as int])));
        i += 1;
    }
    assert(ports.deep_view() =~= instance_ports(bindings));
    ApplicationInstance {
        id: container.id.clone(),
        name,
        template_id: label_or_default(&container.labels, LABEL_APP_TEMPLATE),
        category: label_or_default(&container.labels, LABEL_APP_CATEGORY),
        image: container.image.clone(),
        state: container.state.clone(),
        status: container.status.clone(),
        ports,
        labels: container.labels.clone(),
    }
}

/// The entry point of the application subsystem. It holds no state: every
/// answer is computed from what the caller hands over.
pub struct ApplicationManager {}

impl ApplicationManager {
    /// The manager. There is nothing to set up.
    pub fn new() -> (out: ApplicationManager) {
        ApplicationManager {  }
    }

    /// The catalog of templates, in its fixed order.
    pub fn list_templates(&self) -> (out: Vec<ApplicationTemplate>)
        ensures
            out.deep_view() == catalog(),
    {
        let mut out: Vec<ApplicationTemplate> = Vec::new();
        out.push(
            ApplicationTemplate {
                id: TEMPLATE_NGINX_STANDARD.to_string(),
                name: "Nginx-Standard".to_string(),
                description: "Standard Nginx container template".to_string(),
                category: APP_CATEGORY_PROXY.to_string(),
                image: "nginx:stable-alpine".to_string(),
                default_ports: vec![80u16, 443u16],
                requires_domain: false,
                requires_upstream: false,
            },
        );
        out.push(
            ApplicationTemplate {
                id: TEMPLATE_CADDY_AUTOSSL.to_string(),
                name: "Caddy-AutoSSL".to_string(),
                description: "Caddy reverse proxy template with automatic HTTPS using a domain".to_string(),
                category: APP_CATEGORY_PROXY.to_string(),
                image: "caddy:2-alpine".to_string(),
                default_ports: vec![80u16, 443u16],
                requires_domain: true,
                requires_upstream: true,
            },
        );
        assert(out.deep_view()[0].default_ports =~= seq![80u16, 443u16]);
        assert(out.deep_view()[1].default_ports =~= seq![80u16, 443u16]);
        assert(out.deep_view() =~= catalog());
        out
    }

    /// The template with the identifier `template_id`, if the catalog holds
    /// one.
    pub fn find_template(&self, template_id: &str) -> (out: Option<ApplicationTemplate>)
        ensures
            out.deep_view() == template_with_id(catalog(), template_id@),
    {
        let templates = self.list_templates();
        let ghost all = templates.deep_view();
        let mut i: usize = 0;
        assert(all.skip(0) =~= all);
        while i < templates.len()
            invariant
                i <= templates.len(),
                all == templates.deep_view(),
                all == catalog(),
                template_with_id(all, template_id@) == template_with_id(
                    all.skip(i as int),
                    template_id@,
                ),
            decreases templates.len() - i,
        {
            proof {
                assert(all.skip(i as int)[0] == templates@[i as int].deep_view());
                assert(all.skip(i as int).drop_first() =~= all.skip(i + 1));
            }
            if templates[i].id.as_str().eq(template_id) {
                let found = templates[i].clone();
                assert(all.skip(i as int)[0].id == template_id@);
                assert(found.deep_view() == all.skip(i as int)[0]);
                return Some(found);
            }
            i += 1;
        }
        None
    }

    /// The application instances among `containers`, which the caller got
    /// from the engine's list of all containers, running or not. The order is
    /// the engine's.
    pub fn list_instances(&self, containers: &Vec<ContainerInfo>) -> (out: Vec<
        ApplicationInstance,
    >)
        ensures
            out.deep_view() == instances_of(containers.deep_view()),
    {
        let ghost all = containers.deep_view();
        let mut out: Vec<ApplicationInstance> = Vec::new();
        let mut i: usize = 0;
        assert(out.deep_view() =~= Seq::empty());
        while i < containers.len()
            invariant
                i <= containers.len(),
                all == containers.deep_view(),
                out.deep_view() == instances_of(all.take(i as int)),
            decreases containers.len() - i,
        {
            proof {
                assert(all.take(i + 1).drop_last() =~= all.take(i as int));
                assert(all.take(i + 1).last() == containers@[i as int].deep_view());
            }
            let ghost before = out.deep_view();
            if container_is_instance(&containers[i]) {
                out.push(instance_from(&containers[i]));
                assert(out.deep_view() =~= before.push(instance_of(all[i as int])));
            }
            i += 1;
        }
        assert(all.take(i as int) =~= all);
        out
    }

    /// Whether one of `images`, which the caller got from the engine's list
    /// of local images, carries `image` as a tag.
    pub fn image_exists(&self, image: &str, images: &Vec<ImageInfo>) -> (out: bool)
        ensures
            out == image_listed(images.deep_view(), image@),
    {
        let target = trim(image);
        if target.unicode_len() == 0 {
            return false;
        }
        let mut normalized: String = target.to_owned();
        if !contains_char(target, ':') {
            normalized.append(":latest");
        }
        let ghost all = images.deep_view();
        let mut i: usize = 0;
        while i < images.len()
            invariant
                i <= images.len(),
                all == images.deep_view(),
                target@ == trimmed(image@),
                target@.len() > 0,
                normalized@ == with_default_tag(target@),
                forall|a: int, b: int|
                    0 <= a < i && 0 <= b < all[a].repo_tags.len() ==> !#[trigger] tag_names(
                        all[a].repo_tags[b],
                        target@,
                    ),
            decreases images.len() - i,
        {
            let tags = &images[i].repo_tags;
            let mut j: usize = 0;
            while j < tags.len()
                invariant
                    j <= tags.len(),
                    i < images.len(),
                    all == images.deep_view(),
                    tags == &images@[i as int].repo_tags,
                    target@ == trimmed(image@),
                    target@.len() > 0,
                    normalized@ == with_default_tag(target@),
                    forall|b: int|
                        0 <= b < j ==> !#[trigger] tag_names(all[i as int].repo_tags[b], target@),
                decreases tags.len() - j,
            {
                if tags[j].as_str().eq(target) || tags[j].as_str().eq(normalized.as_str()) {
                    assert(all[i as int].repo_tags[j as int] == tags@[j as int]@);
                    assert(tag_names(all[i as int].repo_tags[j as int], target@));
                    return true;
                }
                assert(all[i as int].repo_tags[j as int] == tags@[j as int]@);
                j += 1;
            }
            i += 1;
        }
        false
    }
}

} // verus!
