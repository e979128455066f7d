//! The relay between an image pull and the caller who follows it.
//!
//! The pull reports its progress message by message; the relay turns each
//! message into an event for the caller and closes with exactly one final
//! event, `done` or `error`. Once the caller is gone the relay falls silent:
//! it forwards nothing more, and it does not stop the pull.

use crate::api::applications::{image_required, PullImageStreamQuery};
use crate::error::{heading_of, result_view, AppError, AppErrorView};
use crate::services::docker::{PullProgress, PullProgressView};
use crate::text::{trim, trimmed};
use vstd::prelude::*;

verus! {

/// An event for the caller who follows a pull.
#[derive(Debug, PartialEq, Eq)]
pub enum RelayEvent {
    /// One message of the pull.
    Progress(PullProgress),
    /// The pull of this image is complete.
    Done(String),
    /// The pull failed, for the reason that the text gives.
    Error(String),
}

/// The mathematical model of a [`RelayEvent`].
pub enum RelayEventView {
    Progress(PullProgressView),
    Done(Seq<char>),
    Error(Seq<char>),
}

impl DeepView for RelayEvent {
    type V = RelayEventView;

    open spec fn deep_view(&self) -> RelayEventView {
        match self {
            RelayEvent::Progress(progress) => RelayEventView::Progress(progress.deep_view()),
            RelayEvent::Done(image) => RelayEventView::Done(image@),
            RelayEvent::Error(message) => RelayEventView::Error(message@),
        }
    }
}

/// What happens to a relay.
#[derive(Debug, PartialEq, Eq)]
pub enum PullSignal {
    /// The pull reported a message.
    Progress(PullProgress),
    /// The caller is gone.
    SinkClosed,
    /// The pull came to its end.
    Completed,
    /// The pull failed.
    Failed(AppError),
    /// The task that ran the pull could not be joined.
    JoinFailed(String),
}

/// The mathematical model of a [`PullSignal`].
pub enum PullSignalView {
    Progress(PullProgressView),
    SinkClosed,
    Completed,
    Failed(AppErrorView),
    JoinFailed(Seq<char>),
}

impl DeepView for PullSignal {
    type V = PullSignalView;

    open spec fn deep_view(&self) -> PullSignalView {
        match self {
            PullSignal::Progress(progress) => PullSignalView::Progress(progress.deep_view()),
            PullSignal::SinkClosed => PullSignalView::SinkClosed,
            PullSignal::Completed => PullSignalView::Completed,
            PullSignal::Failed(error) => PullSignalView::Failed(error.deep_view()),
            PullSignal::JoinFailed(reason) => PullSignalView::JoinFailed(reason@),
        }
    }
}

/// Where a relay stands.
#[derive(PartialEq, Eq, Structural, Clone, Copy, Debug)]
pub enum RelayPhase {
    /// Messages are forwarded.
    Forwarding,
    /// The caller is gone; nothing is forwarded any more.
    Disconnected,
    /// The final event has been sent.
    Finished,
}

/// The mathematical model of a [`PullRelay`].
pub struct PullRelayView {
    pub image: Seq<char>,
    pub phase: RelayPhase,
}

/// The name under which an event is sent.
pub open spec fn event_name(event: RelayEventView) -> Seq<char> {
    match event {
        RelayEventView::Progress(_) => "progress"@,
        RelayEventView::Done(_) => "done"@,
        RelayEventView::Error(_) => "error"@,
    }
}

/// Whether an event closes the stream.
pub open spec fn is_final(event: RelayEventView) -> bool {
    !(event is Progress)
}

/// An error as one line of text: the category's heading, then the message.
pub open spec fn error_text(error: AppErrorView) -> Seq<char> {
    heading_of(error.category) + error.message
}

impl PullRelayView {
    /// The event that a signal gives rise to. Only a relay that forwards
    /// sends anything.
    pub open spec fn event(self, signal: PullSignalView) -> Option<RelayEventView> {
        if self.phase == RelayPhase::Forwarding {
            match signal {
                PullSignalView::Progress(progress) => Some(RelayEventView::Progress(progress)),
                PullSignalView::SinkClosed => None,
                PullSignalView::Completed => Some(RelayEventView::Done(self.image)),
                PullSignalView::Failed(error) => Some(RelayEventView::Error(error_text(error))),
                PullSignalView::JoinFailed(reason) => Some(
                    RelayEventView::Error("Pull task join error: "@ + reason),
                ),
            }
        } else {
            None
        }
    }

    /// The relay after a signal.
    pub open spec fn after(self, signal: PullSignalView) -> PullRelayView {
        if self.phase == RelayPhase::Forwarding {
            match signal {
                PullSignalView::Progress(_) => self,
                PullSignalView::SinkClosed => PullRelayView {
                    phase: RelayPhase::Disconnected,
                    ..self
                },
                _ => PullRelayView { phase: RelayPhase::Finished, ..self },
            }
        } else {
            self
        }
    }

    /// The relay after a run of signals.
    pub open spec fn after_all(self, signals: Seq<PullSignalView>) -> PullRelayView
        decreases signals.len(),
    {
        if signals.len() == 0 {
            self
        } else {
            self.after_all(signals.drop_last()).after(signals.last())
        }
    }

    /// The events that a run of signals gives rise to, in order.
    pub open spec fn events(self, signals: Seq<PullSignalView>) -> Seq<RelayEventView>
        decreases signals.len(),
    {
        if signals.len() == 0 {
            Seq::empty()
        } else {
            let before = self.events(signals.drop_last());
            match self.after_all(signals.drop_last()).event(signals.last()) {
                Some(event) => before.push(event),
                None => before,
            }
        }
    }
}

/// The relay for the pull that `image` asks for, or the refusal of a blank
/// `image`.
pub open spec fn relay_for(image: Seq<char>) -> Result<PullRelayView, AppErrorView> {
    if trimmed(image).len() == 0 {
        Err(image_required())
    } else {
        Ok(PullRelayView { image: trimmed(image), phase: RelayPhase::Forwarding })
    }
}

/// The relay of one pull.
#[derive(Debug, PartialEq, Eq)]
pub struct PullRelay {
    image: String,
    phase: RelayPhase,
}

impl DeepView for PullRelay {
    type V = PullRelayView;

    closed spec fn deep_view(&self) -> PullRelayView {
        PullRelayView { image: self.image@, phase: self.phase }
    }
}

impl RelayEvent {
    /// The name under which the event is sent.
    pub fn name(&self) -> (out: &'static str)
        ensures
            out@ == event_name(self.deep_view()),
    {
        match self {
            RelayEvent::Progress(_) => "progress",
            RelayEvent::Done(_) => "done",
            RelayEvent::Error(_) => "error",
        }
    }

    /// Whether the event closes the stream.
    pub fn is_terminal(&self) -> (out: bool)
        ensures
            out == is_final(self.deep_view()),
    {
        match self {
            RelayEvent::Progress(_) => false,
            _ => true,
        }
    }
}

impl PullRelay {
    /// The relay for the pull that `query` asks for.
    pub fn start(query: &PullImageStreamQuery) -> (out: Result<PullRelay, AppError>)
        ensures
            result_view(out) == relay_for(query.image@),
    {
        let image = trim(query.image.as_str());
        if image.unicode_len() == 0 {
            return Err(AppError::Validation("image is required".to_string()));
        }
        Ok(PullRelay { image: image.to_owned(), phase: RelayPhase::Forwarding })
    }

    /// The image to pull.
    pub fn image(&self) -> (out: &str)
        ensures
            out@ == self.deep_view().image,
    {
        self.image.as_str()
    }

    /// Where the relay stands.
    pub fn phase(&self) -> (out: RelayPhase)
        ensures
            out == self.deep_view().phase,
    {
        self.phase
    }

    /// Takes a signal, and returns the event to send to the caller, if any.
    pub fn accept(&mut self, signal: PullSignal) -> (out: Option<RelayEvent>)
        ensures
            out.deep_view() == old(self).deep_view().event(signal.deep_view()),
            final(self).deep_view() == old(self).deep_view().after(signal.deep_view()),
    {
        match self.phase {
            RelayPhase::Forwarding => {},
            _ => {
                return None;
            },
        }
        match signal {
            PullSignal::Progress(progress) => Some(RelayEvent::Progress(progress)),
            PullSignal::SinkClosed => {
                self.phase = RelayPhase::Disconnected;
                None
            },
            PullSignal::Completed => {
                self.phase = RelayPhase::Finished;
                Some(RelayEvent::Done(self.image.clone()))
            },
            PullSignal::Failed(error) => {
                self.phase = RelayPhase::Finished;
                Some(RelayEvent::Error(error.describe()))
            },
            PullSignal::JoinFailed(reason) => {
                self.phase = RelayPhase::Finished;
                let mut message = "Pull task join error: ".to_string();
                message.append(reason.as_str());
                Some(RelayEvent::Error(message))
            },
        }
    }
}

/// A relay that no longer forwards stays as it is and sends nothing,
/// whatever follows.
pub proof fn lemma_silent_relay_stays_silent(relay: PullRelayView, signals: Seq<PullSignalView>)
    requires
        relay.phase != RelayPhase::Forwarding,
    ensures
        relay.after_all(signals) == relay,
        relay.events(signals) == Seq::<RelayEventView>::empty(),
    decreases signals.len(),
{
    if signals.len() > 0 {
        lemma_silent_relay_stays_silent(relay, signals.drop_last());
    }
}

/// A run of signals can be taken in two parts: the events are those of the
/// first part, followed by those that the second part gives rise to in the
/// relay that the first part leaves.
pub proof fn lemma_events_of_parts(
    relay: PullRelayView,
    first: Seq<PullSignalView>,
    second: Seq<PullSignalView>,
)
    ensures
        relay.after_all(first + second) == relay.after_all(first).after_all(second),
        relay.events(first + second) == relay.events(first) + relay.after_all(first).events(second),
    decreases second.len(),
{
    if second.len() == 0 {
        assert(first + second =~= first);
        assert(relay.events(first) + Seq::<RelayEventView>::empty() =~= relay.events(first));
    } else {
        let all = first + second;
        assert(all.drop_last() =~= first + second.drop_last());
        assert(all.last() == second.last());
        lemma_events_of_parts(relay, first, second.drop_last());
        let middle = relay.after_all(first);
        let before = middle.events(second.drop_last());
        match middle.after_all(second.drop_last()).event(second.last()) {
            Some(event) => {
                assert((relay.events(first) + before).push(event) =~= relay.events(first)
                    + before.push(event));
            },
            None => {},
        }
    }
}

/// The signals of a pull that reports `progress` message by message.
pub open spec fn progress_signals(progress: Seq<PullProgressView>) -> Seq<PullSignalView> {
    Seq::new(progress.len(), |i: int| PullSignalView::Progress(progress[i]))
}

/// The events that forward `progress` message by message.
pub open spec fn progress_events(progress: Seq<PullProgressView>) -> Seq<RelayEventView> {
    Seq::new(progress.len(), |i: int| RelayEventView::Progress(progress[i]))
}

/// While the caller listens, every message of the pull is forwarded as it
/// is, in order, and the relay goes on forwarding.
pub proof fn lemma_progress_is_forwarded(relay: PullRelayView, progress: Seq<PullProgressView>)
    requires
        relay.phase == RelayPhase::Forwarding,
    ensures
        relay.after_all(progress_signals(progress)) == relay,
        relay.events(progress_signals(progress)) == progress_events(progress),
    decreases progress.len(),
{
    let signals = progress_signals(progress);
    if progress.len() > 0 {
        assert(signals.drop_last() =~= progress_signals(progress.drop_last()));
        lemma_progress_is_forwarded(relay, progress.drop_last());
        assert(progress_events(progress.drop_last()).push(
            RelayEventView::Progress(progress.last()),
        ) =~= progress_events(progress));
    } else {
        assert(progress_events(progress) =~= Seq::<RelayEventView>::empty());
    }
}

/// A pull that reports its messages and completes, with the caller
/// listening throughout, is relayed as those messages followed by one `done`
/// event that names the image.
pub proof fn lemma_completed_pull_is_relayed(image: Seq<char>, progress: Seq<PullProgressView>)
    ensures
        (PullRelayView { image, phase: RelayPhase::Forwarding }).events(
            progress_signals(progress).push(PullSignalView::Completed),
        ) == progress_events(progress).push(RelayEventView::Done(image)),
{
    let relay = PullRelayView { image, phase: RelayPhase::Forwarding };
    let signals = progress_signals(progress).push(PullSignalView::Completed);
    assert(signals.drop_last() =~= progress_signals(progress));
    lemma_progress_is_forwarded(relay, progress);
}

/// Once the caller is gone, nothing more is sent: the events of a run are
/// those of its part before the caller left, whatever came after.
pub proof fn lemma_disconnect_silences(
    relay: PullRelayView,
    before: Seq<PullSignalView>,
    after: Seq<PullSignalView>,
)
    ensures
        relay.events(before.push(PullSignalView::SinkClosed) + after) == relay.events(before),
{
    let closed = before.push(PullSignalView::SinkClosed);
    assert(closed.drop_last() =~= before);
    lemma_events_of_parts(relay, closed, after);
    let left = relay.after_all(closed);
    assert(left.phase != RelayPhase::Forwarding);
    lemma_silent_relay_stays_silent(left, after);
    assert(relay.events(before) + Seq::<RelayEventView>::empty() =~= relay.events(before));
}

/// A relay sends at most one final event, and nothing after it: every event
/// but the last is a progress event, and a relay that has not sent its final
/// event has sent progress events only.
pub proof fn lemma_one_final_event(relay: PullRelayView, signals: Seq<PullSignalView>)
    requires
        relay.phase == RelayPhase::Forwarding,
    ensures
        forall|i: int|
            0 <= i < relay.events(signals).len() - 1 ==> !is_final(
                #[trigger] relay.events(signals)[i],
            ),
        relay.after_all(signals).phase != RelayPhase::Finished ==> forall|i: int|
            0 <= i < relay.events(signals).len() ==> !is_final(#[trigger] relay.events(signals)[i]),
        relay.after_all(signals).phase == RelayPhase::Finished ==> relay.events(signals).len() > 0
            && is_final(relay.events(signals).last()),
    decreases signals.len(),
{
    if signals.len() > 0 {
        lemma_one_final_event(relay, signals.drop_last());
        let previous = relay.after_all(signals.drop_last());
        let before = relay.events(signals.drop_last());
        let all = relay.events(signals);
        assert forall|i: int| 0 <= i < all.len() - 1 implies !is_final(#[trigger] all[i]) by {
            if previous.event(signals.last()) is Some {
                assert(all[i] == before[i]);
            }
        }
        if relay.after_all(signals).phase != RelayPhase::Finished {
            assert forall|i: int| 0 <= i < all.len() implies !is_final(#[trigger] all[i]) by {
                if i < before.len() {
                    assert(all[i] == before[i]);
                }
            }
        }
    }
}

} // verus!
