//! The boundary for the application subsystem: the queries, the check for a
//! local image, and the one retry of an installation after a pull.
//!
//! An installation that fails because the image is not there is not retried
//! inside the installation. The boundary recognizes that failure, pulls the
//! image, and installs once more, so that the progress of the pull can be
//! shown in between.

use crate::error::{result_view, AppError, AppErrorView, ErrorCategory};
use crate::services::application::{catalog, template_with_id, ApplicationManager};
use crate::services::docker::{
    DockerActionResponse, DockerActionResponseView, ImageInfo, ImageInfoView, PullProgress,
    PullProgressView,
};
use crate::services::install::{given, InstallApplicationRequest, InstallApplicationRequestView};
use crate::text::{
    contains, contains_char, contains_text, lowercase, to_lowercase, trim, trimmed,
};
use vstd::prelude::*;

verus! {

/// Whether a removal is forced.
#[derive(Debug, PartialEq, Eq)]
pub struct ForceQuery {
    pub force: Option<bool>,
}

/// The image whose pull is to be followed.
#[derive(Debug, PartialEq, Eq)]
pub struct PullImageStreamQuery {
    pub image: String,
}

/// The image that is asked about.
#[derive(Debug, PartialEq, Eq)]
pub struct ImageExistsQuery {
    pub image: String,
}

/// Whether the image that was asked about is there.
#[derive(Debug, PartialEq, Eq)]
pub struct ImageExistsResponse {
    pub image: String,
    pub exists: bool,
}

/// The mathematical model of an [`ImageExistsResponse`].
pub struct ImageExistsResponseView {
    pub image: Seq<char>,
    pub exists: bool,
}

impl DeepView for ImageExistsResponse {
    type V = ImageExistsResponseView;

    open spec fn deep_view(&self) -> ImageExistsResponseView {
        ImageExistsResponseView { image: self.image@, exists: self.exists }
    }
}

/// What an installation came to.
#[derive(Debug, PartialEq, Eq)]
pub struct InstallApplicationResponse {
    pub action: DockerActionResponse,
    /// Whether the image had to be pulled first.
    pub image_pulled: bool,
    /// What the pull reported, if there was one.
    pub pull_progress: Vec<PullProgress>,
}

/// The mathematical model of an [`InstallApplicationResponse`].
pub struct InstallApplicationResponseView {
    pub action: DockerActionResponseView,
    pub image_pulled: bool,
    pub pull_progress: Seq<PullProgressView>,
}

impl DeepView for InstallApplicationResponse {
    type V = InstallApplicationResponseView;

    open spec fn deep_view(&self) -> InstallApplicationResponseView {
        InstallApplicationResponseView {
            action: self.action.deep_view(),
            image_pulled: self.image_pulled,
            pull_progress: self.pull_progress.deep_view(),
        }
    }
}

/// What the boundary does after an attempt to install.
#[derive(Debug, PartialEq, Eq)]
pub enum InstallAttempt {
    /// Answer the caller with this.
    Respond(InstallApplicationResponse),
    /// Pull this image, then install once more and hand the result to
    /// [`after_retry`].
    PullAndRetry(String),
    /// Report this failure.
    Fail(AppError),
}

/// The mathematical model of an [`InstallAttempt`].
pub enum InstallAttemptView {
    Respond(InstallApplicationResponseView),
    PullAndRetry(Seq<char>),
    Fail(AppErrorView),
}

impl DeepView for InstallAttempt {
    type V = InstallAttemptView;

    open spec fn deep_view(&self) -> InstallAttemptView {
        match self {
            InstallAttempt::Respond(response) => InstallAttemptView::Respond(response.deep_view()),
            InstallAttempt::PullAndRetry(image) => InstallAttemptView::PullAndRetry(image@),
            InstallAttempt::Fail(error) => InstallAttemptView::Fail(error.deep_view()),
        }
    }
}

/// The failure reported for a query that names no image.
pub open spec fn image_required() -> AppErrorView {
    AppErrorView { category: ErrorCategory::Validation, message: "image is required"@ }
}

/// Whether `image` stands for `wanted`, both in lowercase: as it is, or,
/// where `wanted` names no tag, with the tag `latest`.
pub open spec fn names_image(tag: Seq<char>, wanted: Seq<char>) -> bool {
    tag == wanted || (!wanted.contains(':') && tag == wanted + ":latest"@)
}

/// Whether one of `images` is the image `wanted`, case left aside: one of
/// its tags names it, or its identifier holds it.
pub open spec fn image_known(images: Seq<ImageInfoView>, wanted: Seq<char>) -> bool {
    exists|i: int|
        0 <= i < images.len() && #[trigger] image_is(images[i], lowercase(wanted))
}

/// Whether `image` is the one that the lowercase text `wanted` names.
pub open spec fn image_is(image: ImageInfoView, wanted: Seq<char>) -> bool {
    contains_text(lowercase(image.id), wanted) || exists|j: int|
        0 <= j < image.repo_tags.len() && names_image(
            lowercase(#[trigger] image.repo_tags[j]),
            wanted,
        )
}

/// The image that a query names, without the whitespace around it; a query
/// that names none is refused.
pub open spec fn named_image(image: Seq<char>) -> Result<Seq<char>, AppErrorView> {
    if trimmed(image).len() == 0 {
        Err(image_required())
    } else {
        Ok(trimmed(image))
    }
}

/// The answer to the question whether `image` is among `images`; a blank
/// `image` is refused.
pub open spec fn image_answer(images: Seq<ImageInfoView>, image: Seq<char>) -> Result<
    ImageExistsResponseView,
    AppErrorView,
> {
    match named_image(image) {
        Ok(wanted) => Ok(
            ImageExistsResponseView { image: wanted, exists: image_known(images, wanted) },
        ),
        Err(error) => Err(error),
    }
}

/// The image that an installation needs: the one asked for, unless it is
/// blank, else the template's.
pub open spec fn needed_image(request: InstallApplicationRequestView) -> Option<Seq<char>> {
    match given(request.image_override) {
        Some(image) => Some(image),
        None => match template_with_id(catalog(), request.template_id) {
            Some(template) => Some(template.image),
            None => None,
        },
    }
}

/// Whether a failure says that the image is not there: it is a failure of
/// the engine whose message holds `No such image`.
pub open spec fn is_missing_image(error: AppErrorView) -> bool {
    error.category == ErrorCategory::System && contains_text(error.message, "No such image"@)
}

/// The failure reported when the image is not there and cannot be told
/// from the request.
pub open spec fn unresolved_image() -> AppErrorView {
    AppErrorView {
        category: ErrorCategory::Validation,
        message: "No such image and failed to resolve image from template/install payload"@,
    }
}

/// What the boundary does after the first attempt to install `request` came
/// to `result`.
pub open spec fn first_attempt(
    request: InstallApplicationRequestView,
    result: Result<DockerActionResponseView, AppErrorView>,
) -> InstallAttemptView {
    match result {
        Ok(action) => InstallAttemptView::Respond(
            InstallApplicationResponseView {
                action,
                image_pulled: false,
                pull_progress: Seq::empty(),
            },
        ),
        Err(error) => if is_missing_image(error) {
            match needed_image(request) {
                Some(image) => InstallAttemptView::PullAndRetry(image),
                None => InstallAttemptView::Fail(unresolved_image()),
            }
        } else {
            InstallAttemptView::Fail(error)
        },
    }
}

/// What the boundary answers after the pull reported `progress` and the
/// second attempt to install came to `result`. There is no third attempt.
pub open spec fn second_attempt(
    result: Result<DockerActionResponseView, AppErrorView>,
    progress: Seq<PullProgressView>,
) -> Result<InstallApplicationResponseView, AppErrorView> {
    match result {
        Ok(action) => Ok(
            InstallApplicationResponseView { action, image_pulled: true, pull_progress: progress },
        ),
        Err(error) => Err(error),
    }
}

impl ForceQuery {
    /// Whether the removal is forced: yes, unless the query says otherwise.
    pub fn forced(&self) -> (out: bool)
        ensures
            out == match self.force {
                Some(value) => value,
                None => true,
            },
    {
        match self.force {
            Some(value) => value,
            None => true,
        }
    }
}

/// Whether `image` is the one that the lowercase text `wanted` names.
fn is_image(image: &ImageInfo, wanted: &str) -> (out: bool)
    ensures
        out == image_is(image.deep_view(), wanted@),
{
    let id = to_lowercase(image.id.as_str());
    if contains(id.as_str(), wanted) {
        return true;
    }
    let tagless = !contains_char(wanted, ':');
    let mut with_tag = wanted.to_owned();
    with_tag.append(":latest");
    let ghost model = image.deep_view();
    let mut j: usize = 0;
    while j < image.repo_tags.len()
        invariant
            j <= image.repo_tags.len(),
            model == image.deep_view(),
            tagless == !wanted@.contains(':'),
            with_tag@ == wanted@ + ":latest"@,
            !contains_text(lowercase(model.id), wanted@),
            forall|k: int|
                0 <= k < j ==> !names_image(lowercase(#[trigger] model.repo_tags[k]), wanted@),
        decreases image.repo_tags.len() - j,
    {
        let tag = to_lowercase(image.repo_tags[j].as_str());
        assert(model.repo_tags[j as int] == image.repo_tags@[j as int]@);
        if tag.as_str().eq(wanted) || (tagless && tag.as_str().eq(with_tag.as_str())) {
            return true;
        }
        j += 1;
    }
    false
}

impl ImageExistsQuery {
    /// The image that the query names, or the refusal of a query that names
    /// none. The engine need not be asked for a query that is refused.
    pub fn image_name(&self) -> (out: Result<&str, AppError>)
        ensures
            match out {
                Ok(name) => named_image(self.image@) == Ok::<Seq<char>, AppErrorView>(name@),
                Err(error) => named_image(self.image@) == Err::<Seq<char>, AppErrorView>(
                    error.deep_view(),
                ),
            },
    {
        let image = trim(self.image.as_str());
        if image.unicode_len() == 0 {
            return Err(AppError::Validation("image is required".to_string()));
        }
        Ok(image)
    }
}

/// Answers whether the image of `query` is among `images`, which the caller
/// got from the engine's list of local images.
pub fn image_exists(query: &ImageExistsQuery, images: &Vec<ImageInfo>) -> (out: Result<
    ImageExistsResponse,
    AppError,
>)
    ensures
        result_view(out) == image_answer(images.deep_view(), query.image@),
{
    let image = match query.image_name() {
        Ok(image) => image,
        Err(error) => {
            return Err(error);
        },
    };
    let wanted = to_lowercase(image);
    let ghost all = images.deep_view();
    let mut i: usize = 0;
    while i < images.len()
        invariant
            i <= images.len(),
            all == images.deep_view(),
            image@ == trimmed(query.image@),
            image@.len() > 0,
            wanted@ == lowercase(image@),
            forall|k: int| 0 <= k < i ==> !#[trigger] image_is(all[k], wanted@),
        decreases images.len() - i,
    {
        assert(all[i as int] == images@[i as int].deep_view());
        if is_image(&images[i], wanted.as_str()) {
            return Ok(ImageExistsResponse { image: image.to_owned(), exists: true });
        }
        i += 1;
    }
    Ok(ImageExistsResponse { image: image.to_owned(), exists: false })
}

/// The image that the installation `payload` needs.
pub fn resolve_install_image(manager: &ApplicationManager, payload: &InstallApplicationRequest) -> (out:
    Option<String>)
    ensures
        out.deep_view() == needed_image(payload.deep_view()),
{
    match &payload.image_override {
        Some(image) => {
            let image = trim(image.as_str());
            if image.unicode_len() > 0 {
                return Some(image.to_owned());
            }
        },
        None => {},
    }
    match manager.find_template(payload.template_id.as_str()) {
        Some(template) => Some(template.image),
        None => None,
    }
}

/// Decides what follows the first attempt to install `payload`.
pub fn after_install(
    manager: &ApplicationManager,
    payload: &InstallApplicationRequest,
    result: Result<DockerActionResponse, AppError>,
) -> (out: InstallAttempt)
    ensures
        out.deep_view() == first_attempt(payload.deep_view(), result_view(result)),
{
    match result {
        Ok(action) => {
            let response = InstallApplicationResponse {
                action,
                image_pulled: false,
                pull_progress: Vec::new(),
            };
            assert(response.pull_progress.deep_view() =~= Seq::empty());
            InstallAttempt::Respond(response)
        },
        Err(error) => {
            let missing = match &error {
                AppError::System(message) => contains(message.as_str(), "No such image"),
                _ => false,
            };
            if missing {
                match resolve_install_image(manager, payload) {
                    Some(image) => InstallAttempt::PullAndRetry(image),
                    None => InstallAttempt::Fail(
                        AppError::Validation(
                            "No such image and failed to resolve image from template/install payload".to_string(),
                        ),
                    ),
                }
            } else {
                InstallAttempt::Fail(error)
            }
        },
    }
}

/// Puts together the answer after the pull and the second attempt.
pub fn after_retry(result: Result<DockerActionResponse, AppError>, progress: Vec<PullProgress>) -> (out:
    Result<InstallApplicationResponse, AppError>)
    ensures
        result_view(out) == second_attempt(result_view(result), progress.deep_view()),
{
    match result {
        Ok(action) => Ok(
            InstallApplicationResponse { action, image_pulled: true, pull_progress: progress },
        ),
        Err(error) => Err(error),
    }
}

} // verus!
