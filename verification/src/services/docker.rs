//! The values exchanged with the container engine, and the few pure rules
//! that sit between the panel and the engine: how an image reference splits
//! into repository and tag, how a restart policy is named, and what a
//! successful action reports.

use crate::strmap::StringMap;
use crate::text::{
    chars_of, last_index_of, lemma_last_index_of, strip_leading, strip_prefix, trim, trimmed,
    without_leading, without_prefix,
};
use vstd::prelude::*;

verus! {

/// One port of a container, as the engine lists it.
#[derive(Debug, PartialEq, Eq)]
pub struct PortBinding {
    pub ip: String,
    pub private_port: u16,
    pub public_port: Option<u16>,
    pub port_type: String,
}

/// The mathematical model of a [`PortBinding`].
pub struct PortBindingView {
    pub ip: Seq<char>,
    pub private_port: u16,
    pub public_port: Option<u16>,
    pub port_type: Seq<char>,
}

impl DeepView for PortBinding {
    type V = PortBindingView;

    open spec fn deep_view(&self) -> PortBindingView {
        PortBindingView {
            ip: self.ip@,
            private_port: self.private_port,
            public_port: self.public_port,
            port_type: self.port_type@,
        }
    }
}

/// A container, as the engine lists it.
#[derive(Debug, PartialEq, Eq)]
pub struct ContainerInfo {
    pub id: String,
    pub names: Vec<String>,
    pub image: String,
    pub image_id: String,
    pub command: String,
    pub created: i64,
    pub state: String,
    pub status: String,
    pub ports: Vec<PortBinding>,
    pub labels: StringMap,
    pub size_rw: Option<i64>,
    pub size_root_fs: Option<i64>,
}

/// The mathematical model of a [`ContainerInfo`].
pub struct ContainerInfoView {
    pub id: Seq<char>,
    pub names: Seq<Seq<char>>,
    pub image: Seq<char>,
    pub image_id: Seq<char>,
    pub command: Seq<char>,
    pub created: i64,
    pub state: Seq<char>,
    pub status: Seq<char>,
    pub ports: Seq<PortBindingView>,
    pub labels: Map<Seq<char>, Seq<char>>,
    pub size_rw: Option<i64>,
    pub size_root_fs: Option<i64>,
}

impl DeepView for ContainerInfo {
    type V = ContainerInfoView;

    open spec fn deep_view(&self) -> ContainerInfoView {
        ContainerInfoView {
            id: self.id@,
            names: self.names.deep_view(),
            image: self.image@,
            image_id: self.image_id@,
            command: self.command@,
            created: self.created,
            state: self.state@,
            status: self.status@,
            ports: self.ports.deep_view(),
            labels: self.labels.deep_view(),
            size_rw: self.size_rw,
            size_root_fs: self.size_root_fs,
        }
    }
}

/// The run state of a container, as an inspection reports it.
#[derive(Debug, PartialEq, Eq)]
pub struct ContainerStateInfo {
    pub status: String,
    pub running: bool,
    pub paused: bool,
    pub restarting: bool,
    pub oom_killed: bool,
    pub dead: bool,
    pub pid: i64,
    pub exit_code: i64,
    pub started_at: String,
    pub finished_at: String,
}

/// One mount of a container.
#[derive(Debug, PartialEq, Eq)]
pub struct MountInfo {
    pub mount_type: String,
    pub source: String,
    pub destination: String,
    pub mode: String,
    pub rw: bool,
}

/// A container, as an inspection reports it.
#[derive(Debug, PartialEq, Eq)]
pub struct ContainerDetail {
    pub id: String,
    pub name: String,
    pub image: String,
    pub created: String,
    pub state: ContainerStateInfo,
    pub platform: String,
    pub driver: String,
    pub restart_count: i64,
    pub mounts: Vec<MountInfo>,
    pub network_mode: String,
    pub env: Vec<String>,
    pub cmd: Vec<String>,
    pub entrypoint: Vec<String>,
}

/// A local image, as the engine lists it.
#[derive(Debug, PartialEq, Eq)]
pub struct ImageInfo {
    pub id: String,
    pub repo_tags: Vec<String>,
    pub repo_digests: Vec<String>,
    pub created: i64,
    pub size: i64,
    pub shared_size: i64,
    pub containers: i64,
    pub labels: StringMap,
}

/// The mathematical model of an [`ImageInfo`].
pub struct ImageInfoView {
    pub id: Seq<char>,
    pub repo_tags: Seq<Seq<char>>,
    pub repo_digests: Seq<Seq<char>>,
    pub created: i64,
    pub size: i64,
    pub shared_size: i64,
    pub containers: i64,
    pub labels: Map<Seq<char>, Seq<char>>,
}

impl DeepView for ImageInfo {
    type V = ImageInfoView;

    open spec fn deep_view(&self) -> ImageInfoView {
        ImageInfoView {
            id: self.id@,
            repo_tags: self.repo_tags.deep_view(),
            repo_digests: self.repo_digests.deep_view(),
            created: self.created,
            size: self.size,
            shared_size: self.shared_size,
            containers: self.containers,
            labels: self.labels.deep_view(),
        }
    }
}

/// What the engine gateway reports after an action on a container or image.
#[derive(Debug, PartialEq, Eq)]
pub struct DockerActionResponse {
    pub success: bool,
    pub message: String,
}

/// The mathematical model of a [`DockerActionResponse`].
pub struct DockerActionResponseView {
    pub success: bool,
    pub message: Seq<char>,
}

impl DeepView for DockerActionResponse {
    type V = DockerActionResponseView;

    open spec fn deep_view(&self) -> DockerActionResponseView {
        DockerActionResponseView { success: self.success, message: self.message@ }
    }
}

/// Where a container port is published on the host.
#[derive(Debug, PartialEq, Eq)]
pub struct PortMap {
    pub host_ip: Option<String>,
    pub host_port: String,
}

/// The mathematical model of a [`PortMap`].
pub struct PortMapView {
    pub host_ip: Option<Seq<char>>,
    pub host_port: Seq<char>,
}

impl DeepView for PortMap {
    type V = PortMapView;

    open spec fn deep_view(&self) -> PortMapView {
        PortMapView { host_ip: self.host_ip.deep_view(), host_port: self.host_port@ }
    }
}

/// A container port (such as `80/tcp`) with the host addresses it is
/// published on.
#[derive(Debug, PartialEq, Eq)]
pub struct PortPublish {
    pub container_port: String,
    pub bindings: Vec<PortMap>,
}

/// The mathematical model of a [`PortPublish`].
pub struct PortPublishView {
    pub container_port: Seq<char>,
    pub bindings: Seq<PortMapView>,
}

impl DeepView for PortPublish {
    type V = PortPublishView;

    open spec fn deep_view(&self) -> PortPublishView {
        PortPublishView {
            container_port: self.container_port@,
            bindings: self.bindings.deep_view(),
        }
    }
}

/// What the engine is asked to create.
#[derive(Debug, PartialEq, Eq)]
pub struct CreateContainerRequest {
    pub name: Option<String>,
    pub image: String,
    pub cmd: Option<Vec<String>>,
    pub env: Option<Vec<String>>,
    pub ports: Option<Vec<PortPublish>>,
    pub volumes: Option<StringMap>,
    pub restart_policy: Option<String>,
    pub labels: Option<StringMap>,
}

/// The mathematical model of a [`CreateContainerRequest`].
pub struct CreateContainerRequestView {
    pub name: Option<Seq<char>>,
    pub image: Seq<char>,
    pub cmd: Option<Seq<Seq<char>>>,
    pub env: Option<Seq<Seq<char>>>,
    pub ports: Option<Seq<PortPublishView>>,
    pub volumes: Option<Map<Seq<char>, Seq<char>>>,
    pub restart_policy: Option<Seq<char>>,
    pub labels: Option<Map<Seq<char>, Seq<char>>>,
}

impl DeepView for CreateContainerRequest {
    type V = CreateContainerRequestView;

    open spec fn deep_view(&self) -> CreateContainerRequestView {
        CreateContainerRequestView {
            name: self.name.deep_view(),
            image: self.image@,
            cmd: self.cmd.deep_view(),
            env: self.env.deep_view(),
            ports: self.ports.deep_view(),
            volumes: self.volumes.deep_view(),
            restart_policy: self.restart_policy.deep_view(),
            labels: self.labels.deep_view(),
        }
    }
}

/// One message of an image pull.
#[derive(Debug, PartialEq, Eq)]
pub struct PullProgress {
    pub status: String,
    pub id: Option<String>,
    pub progress: Option<String>,
}

/// The mathematical model of a [`PullProgress`].
pub struct PullProgressView {
    pub status: Seq<char>,
    pub id: Option<Seq<char>>,
    pub progress: Option<Seq<char>>,
}

impl DeepView for PullProgress {
    type V = PullProgressView;

    open spec fn deep_view(&self) -> PullProgressView {
        PullProgressView {
            status: self.status@,
            id: self.id.deep_view(),
            progress: self.progress.deep_view(),
        }
    }
}

impl Clone for PortBinding {
    fn clone(&self) -> (out: Self)
        ensures
            out == *self,
    {
        PortBinding {
            ip: self.ip.clone(),
            private_port: self.private_port,
            public_port: self.public_port,
            port_type: self.port_type.clone(),
        }
    }
}

impl Clone for ContainerInfo {
    fn clone(&self) -> (out: Self)
        ensures
            out.deep_view() == self.deep_view(),
    {
        let ports = self.ports.clone();
        assert(ports@ =~= self.ports@);
        assert(ports.deep_view() =~= self.ports.deep_view());
        ContainerInfo {
            id: self.id.clone(),
            names: self.names.clone(),
            image: self.image.clone(),
            image_id: self.image_id.clone(),
            command: self.command.clone(),
            created: self.created,
            state: self.state.clone(),
            status: self.status.clone(),
            ports,
            labels: self.labels.clone(),
            size_rw: self.size_rw,
            size_root_fs: self.size_root_fs,
        }
    }
}

impl Clone for DockerActionResponse {
    fn clone(&self) -> (out: Self)
        ensures
            out == *self,
    {
        DockerActionResponse { success: self.success, message: self.message.clone() }
    }
}

impl Clone for PortMap {
    fn clone(&self) -> (out: Self)
        ensures
            out == *self,
    {
        PortMap { host_ip: self.host_ip.clone(), host_port: self.host_port.clone() }
    }
}

impl Clone for PortPublish {
    fn clone(&self) -> (out: Self)
        ensures
            out.deep_view() == self.deep_view(),
    {
        let bindings = self.bindings.clone();
        assert(bindings@ =~= self.bindings@);
        assert(bindings.deep_view() =~= self.bindings.deep_view());
        PortPublish { container_port: self.container_port.clone(), bindings }
    }
}

impl Clone for PullProgress {
    fn clone(&self) -> (out: Self)
        ensures
            out == *self,
    {
        PullProgress {
            status: self.status.clone(),
            id: self.id.clone(),
            progress: self.progress.clone(),
        }
    }
}

/// The name of a container without the slashes that the engine puts before
/// it.
pub fn container_name(raw: &str) -> (out: String)
    ensures
        out@ == without_leading(raw@, '/'),
{
    strip_leading(raw, '/').to_owned()
}

/// The repository of an image reference: what stands before its last
/// colon, or all of it where it has none.
pub open spec fn image_repository(image: Seq<char>) -> Seq<char> {
    let at = last_index_of(image, ':');
    if at < 0 {
        image
    } else {
        image.take(at)
    }
}

/// The tag of an image reference: what stands after its last colon, or
/// `latest` where it has none.
pub open spec fn image_tag(image: Seq<char>) -> Seq<char> {
    let at = last_index_of(image, ':');
    if at < 0 {
        "latest"@
    } else {
        image.skip(at + 1)
    }
}

/// Splits an image reference into repository and tag.
pub fn split_image_reference(image: &str) -> (out: (String, String))
    ensures
        out.0@ == image_repository(image@),
        out.1@ == image_tag(image@),
{
    let chars = chars_of(image);
    let mut at: usize = chars.len();
    while at > 0 && chars[at - 1] != ':'
        invariant
            at <= chars.len(),
            chars@ == image@,
            forall|i: int| at <= i < chars.len() ==> #[trigger] chars@[i] != ':',
        decreases at,
    {
        at -= 1;
    }
    proof {
        lemma_last_index_of(image@, ':', at - 1);
    }
    if at == 0 {
        (image.to_owned(), "latest".to_string())
    } else {
        let repository = image.substring_char(0, at - 1);
        let tag = image.substring_char(at, chars.len());
        (repository.to_owned(), tag.to_owned())
    }
}

/// When the engine restarts a container on its own.
#[derive(PartialEq, Eq, Structural, Clone, Copy, Debug)]
pub enum RestartPolicy {
    Always,
    UnlessStopped,
    OnFailure,
    No,
}

/// The restart policy that a name stands for. A name that stands for none
/// means that the container is not restarted.
pub open spec fn restart_policy_named(name: Seq<char>) -> RestartPolicy {
    if name == "always"@ {
        RestartPolicy::Always
    } else if name == "unless-stopped"@ {
        RestartPolicy::UnlessStopped
    } else if name == "on-failure"@ {
        RestartPolicy::OnFailure
    } else {
        RestartPolicy::No
    }
}

/// The restart policy that `name` stands for.
pub fn restart_policy(name: &str) -> (out: RestartPolicy)
    ensures
        out == restart_policy_named(name@),
{
    if name.eq("always") {
        RestartPolicy::Always
    } else if name.eq("unless-stopped") {
        RestartPolicy::UnlessStopped
    } else if name.eq("on-failure") {
        RestartPolicy::OnFailure
    } else {
        RestartPolicy::No
    }
}

/// What the engine is handed for a creation, field by field.
#[derive(Debug, PartialEq, Eq)]
pub struct ContainerSpec {
    pub name: Option<String>,
    pub image: String,
    pub cmd: Option<Vec<String>>,
    pub env: Option<Vec<String>>,
    pub labels: Option<StringMap>,
    /// The container ports that are exposed; absent where there is none.
    pub exposed_ports: Option<Vec<String>>,
    /// Where the exposed ports are published; absent where there is none.
    pub port_bindings: Option<Vec<PortPublish>>,
    /// The bind mounts, each as `host:container`.
    pub binds: Option<Vec<String>>,
    pub restart_policy: Option<RestartPolicy>,
}

/// The bind mounts for `volumes`, one for each entry, in order.
pub open spec fn binds_for(volumes: Option<StringMap>) -> Option<Seq<Seq<char>>> {
    match volumes {
        Some(map) => Some(
            Seq::new(map.pairs().len(), |i: int| map.pairs()[i].0 + ":"@ + map.pairs()[i].1),
        ),
        None => None,
    }
}

/// The container ports that `ports` expose, in order; absent where `ports`
/// is absent or empty.
pub open spec fn exposed_for(ports: Option<Seq<PortPublishView>>) -> Option<Seq<Seq<char>>> {
    match ports {
        Some(list) => if list.len() == 0 {
            None
        } else {
            Some(Seq::new(list.len(), |i: int| list[i].container_port))
        },
        None => None,
    }
}

/// The publications of `ports`; absent where `ports` is absent or empty.
pub open spec fn bindings_for(ports: Option<Seq<PortPublishView>>) -> Option<Seq<PortPublishView>> {
    match ports {
        Some(list) => if list.len() == 0 {
            None
        } else {
            Some(list)
        },
        None => None,
    }
}

/// The restart policy for an optional name.
pub open spec fn policy_for(name: Option<Seq<char>>) -> Option<RestartPolicy> {
    match name {
        Some(text) => Some(restart_policy_named(text)),
        None => None,
    }
}

impl CreateContainerRequest {
    /// What the engine is handed for this request.
    pub fn into_spec(self) -> (out: ContainerSpec)
        ensures
            out.name.deep_view() == self.deep_view().name,
            out.image@ == self.image@,
            out.cmd.deep_view() == self.deep_view().cmd,
            out.env.deep_view() == self.deep_view().env,
            out.labels.deep_view() == self.deep_view().labels,
            out.exposed_ports.deep_view() == exposed_for(self.deep_view().ports),
            out.port_bindings.deep_view() == bindings_for(self.deep_view().ports),
            out.binds.deep_view() == binds_for(self.volumes),
            out.restart_policy == policy_for(self.deep_view().restart_policy),
    {
        let ghost ports_model = self.deep_view().ports;
        let (exposed_ports, port_bindings) = match self.ports {
            Some(ports) => if ports.len() == 0 {
                (None, None)
            } else {
                let ghost list = ports.deep_view();
                let mut exposed: Vec<String> = Vec::new();
                let mut i: usize = 0;
                while i < ports.len()
                    invariant
                        i <= ports.len(),
                        list == ports.deep_view(),
                        exposed.len() == i,
                        forall|k: int|
                            0 <= k < i ==> (#[trigger] exposed.deep_view()[k])
                                == list[k].container_port,
                    decreases ports.len() - i,
                {
                    let ghost before = exposed.deep_view();
                    assert(list[i as int] == ports@[i as int].deep_view());
                    exposed.push(ports[i].container_port.clone());
                    assert(exposed.deep_view() =~= before.push(list[i as int].container_port));
                    i += 1;
                }
                assert(exposed.deep_view() =~= Seq::new(
                    list.len(),
                    |i: int| list[i].container_port,
                ));
                (Some(exposed), Some(ports))
            },
            None => (None, None),
        };
        let ghost volumes = self.volumes;
        let binds = match self.volumes {
            Some(map) => {
                let entries = map.entries();
                let ghost pairs = map.pairs();
                let mut binds: Vec<String> = Vec::new();
                let mut i: usize = 0;
                while i < entries.len()
                    invariant
                        i <= entries.len(),
                        binds.len() == i,
                        pairs == entries.deep_view(),
                        forall|k: int|
                            0 <= k < i ==> (#[trigger] binds.deep_view()[k]) == pairs[k].0 + ":"@
                                + pairs[k].1,
                    decreases entries.len() - i,
                {
                    let ghost before = binds.deep_view();
                    assert(pairs[i as int] == entries@[i as int].deep_view());
                    let mut bind = entries[i].key.clone();
                    bind.append(":");
                    bind.append(entries[i].value.as_str());
                    binds.push(bind);
                    assert(binds.deep_view() =~= before.push(
                        pairs[i as int].0 + ":"@ + pairs[i as int].1,
                    ));
                    i += 1;
                }
                assert(binds.deep_view() =~= binds_for(volumes)->0);
                Some(binds)
            },
            None => None,
        };
        let restart = match &self.restart_policy {
            Some(name) => Some(restart_policy(name.as_str())),
            None => None,
        };
        ContainerSpec {
            name: self.name,
            image: self.image,
            cmd: self.cmd,
            env: self.env,
            labels: self.labels,
            exposed_ports,
            port_bindings,
            binds,
            restart_policy: restart,
        }
    }
}

/// What the gateway reports after it did `what` to the `subject` named
/// `id`: the three, with a space between.
pub open spec fn action_report(subject: Seq<char>, id: Seq<char>, what: Seq<char>) -> DockerActionResponseView {
    DockerActionResponseView { success: true, message: subject + " "@ + id + " "@ + what }
}

/// What the gateway reports after the engine created a container.
pub open spec fn creation_report(id: Seq<char>) -> DockerActionResponseView {
    DockerActionResponseView { success: true, message: "Container created with id "@ + id }
}

impl DockerActionResponse {
    /// The report of an action that the engine carried out, such as
    /// `Container` `abc` `started`.
    pub fn reporting(subject: &str, id: &str, what: &str) -> (out: DockerActionResponse)
        ensures
            out.deep_view() == action_report(subject@, id@, what@),
    {
        let mut message = subject.to_owned();
        message.append(" ");
        message.append(id);
        message.append(" ");
        message.append(what);
        DockerActionResponse { success: true, message }
    }

    /// The report of a creation.
    pub fn created(id: &str) -> (out: DockerActionResponse)
        ensures
            out.deep_view() == creation_report(id@),
    {
        let mut message = "Container created with id ".to_string();
        message.append(id);
        DockerActionResponse { success: true, message }
    }
}

/// Whether `image` is the image that `target` names: by its identifier, with
/// or without the prefix `sha256:` on either side, or by one of its tags.
pub open spec fn image_named(image: ImageInfoView, target: Seq<char>) -> bool {
    image.id == target || without_prefix(image.id, "sha256:"@) == without_prefix(
        target,
        "sha256:"@,
    ) || image.repo_tags.contains(target)
}

/// Whether one of `images` is the image that `image` names. Whitespace
/// around `image` does not count, and a blank `image` names nothing.
pub open spec fn image_present(images: Seq<ImageInfoView>, image: Seq<char>) -> bool {
    trimmed(image).len() > 0 && exists|i: int|
        0 <= i < images.len() && #[trigger] image_named(images[i], trimmed(image))
}

/// Whether one of `images`, the engine's list of local images, is the image
/// that `image` names by tag or identifier.
pub fn image_exists(images: &Vec<ImageInfo>, image: &str) -> (out: bool)
    ensures
        out == image_present(images.deep_view(), image@),
{
    let target = trim(image);
    if target.unicode_len() == 0 {
        return false;
    }
    let bare = strip_prefix(target, "sha256:");
    let ghost all = images.deep_view();
    let mut i: usize = 0;
    while i < images.len()
        invariant
            i <= images.len(),
            all == images.deep_view(),
            target@ == trimmed(image@),
            target@.len() > 0,
            bare@ == without_prefix(target@, "sha256:"@),
            forall|k: int| 0 <= k < i ==> !#[trigger] image_named(all[k], target@),
        decreases images.len() - i,
    {
        let candidate = &images[i];
        assert(all[i as int] == candidate.deep_view());
        if candidate.id.as_str().eq(target) || strip_prefix(candidate.id.as_str(), "sha256:").eq(
            bare,
        ) {
            assert(image_named(all[i as int], target@));
            return true;
        }
        let ghost tags = all[i as int].repo_tags;
        let mut j: usize = 0;
        while j < candidate.repo_tags.len()
            invariant
                j <= candidate.repo_tags.len(),
                i < images.len(),
                all == images.deep_view(),
                candidate == &images@[i as int],
                tags == all[i as int].repo_tags,
                target@ == trimmed(image@),
                target@.len() > 0,
                forall|k: int| 0 <= k < j ==> tags[k] != target@,
            decreases candidate.repo_tags.len() - j,
        {
            assert(tags[j as int] == candidate.repo_tags@[j as int]@);
            if candidate.repo_tags[j].as_str().eq(target) {
                assert(tags.contains(target@));
                assert(image_named(all[i as int], target@));
                return true;
            }
            j += 1;
        }
        assert(!tags.contains(target@));
        i += 1;
    }
    false
}

} // verus!
