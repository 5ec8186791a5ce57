use vstd::prelude::*;

use crate::artifact::{Artifact, ArtifactView};
use crate::gitlabreleases::{
    release_of, upload_of, GitlabReleases, PackageUpload, PackageUploadView, ReleaseRequest,
    ReleaseRequestView,
};

verus! {

/// One of the three requests that publish an artifact.
#[derive(Debug, Clone, Copy, PartialEq, Eq, Structural)]
pub enum Stage {
    /// Fetching the artifact from the object store.
    Download,
    /// Uploading it to the package registry.
    Upload,
    /// Creating the release.
    Release,
}

/// Where the publishing of the candidates stands.
#[derive(Debug, Clone, Copy, PartialEq, Eq, Structural)]
pub enum Phase {
    /// Nothing has been asked for yet.
    Ready,
    /// The download of the current candidate is under way.
    Downloading,
    /// The upload of the current candidate is under way.
    Uploading,
    /// The release of the current candidate is being created.
    Releasing,
    /// All candidates are published.
    Finished,
    /// Publishing was given up.
    Aborted,
}

/// Why publishing was given up.
#[derive(Debug, Clone, Copy, PartialEq, Eq, Structural)]
pub enum Stop {
    /// The request of this stage failed.
    Failed(Stage),
    /// The key of the current candidate has no file name to upload it under.
    NoFileName,
    /// An event came that answers no request under way.
    OutOfTurn,
}

/// What the caller reports back to the publisher.
#[derive(Debug, PartialEq, Eq)]
pub enum Event {
    /// Publishing is to begin.
    Started,
    /// The download succeeded and gave these bytes.
    Downloaded(Vec<u8>),
    /// The upload succeeded.
    Uploaded,
    /// The release was created.
    Released,
    /// The request under way failed.
    Failed,
}

/// The mathematical value of an [`Event`].
pub enum EventView {
    Started,
    Downloaded(Seq<u8>),
    Uploaded,
    Released,
    Failed,
}

impl View for Event {
    type V = EventView;

    open spec fn view(&self) -> EventView {
        match self {
            Event::Started => EventView::Started,
            Event::Downloaded(contents) => EventView::Downloaded(contents@),
            Event::Uploaded => EventView::Uploaded,
            Event::Released => EventView::Released,
            Event::Failed => EventView::Failed,
        }
    }
}

/// What the publisher asks the caller to do next.
#[derive(Debug, PartialEq, Eq)]
pub enum Action {
    /// Fetch the object under this key and report its bytes.
    Download { path: String },
    /// Send this upload to the package registry.
    Upload(PackageUpload),
    /// Create this release.
    Release(ReleaseRequest),
    /// Stop: every candidate is published.
    Finish,
    /// Stop: publishing is given up for this reason.
    Abort(Stop),
}

/// The mathematical value of an [`Action`].
pub enum ActionView {
    Download { path: Seq<char> },
    Upload(PackageUploadView),
    Release(ReleaseRequestView),
    Finish,
    Abort(Stop),
}

impl View for Action {
    type V = ActionView;

    open spec fn view(&self) -> ActionView {
        match self {
            Action::Download { path } => ActionView::Download { path: path@ },
            Action::Upload(upload) => ActionView::Upload(upload@),
            Action::Release(release) => ActionView::Release(release@),
            Action::Finish => ActionView::Finish,
            Action::Abort(stop) => ActionView::Abort(*stop),
        }
    }
}

/// The mathematical value of a [`Publisher`].
pub struct PublisherView {
    /// The path of the project that is published to.
    pub project: Seq<char>,
    /// The package under which the artifacts are uploaded.
    pub package_name: Seq<char>,
    /// The candidates, in the order in which they are published.
    pub queue: Seq<ArtifactView>,
    /// How many candidates are published.
    pub position: nat,
    pub phase: Phase,
}

impl PublisherView {
    /// The publisher never runs beyond its queue, and while a request is under
    /// way there is a candidate that it is made for.
    pub open spec fn wf(self) -> bool {
        &&& self.position <= self.queue.len()
        &&& (self.phase is Downloading || self.phase is Uploading || self.phase is Releasing)
            ==> self.position < self.queue.len()
    }

    /// The candidate at the current position of the queue: the first one
    /// that is not published yet.
    pub open spec fn current(self) -> ArtifactView {
        self.queue[self.position as int]
    }

    pub open spec fn in_phase(self, phase: Phase) -> PublisherView {
        PublisherView { phase, ..self }
    }

    /// Turns to the candidate at the current position: asks for its download,
    /// or finishes where the queue is used up.
    pub open spec fn turn_to_next(self) -> (PublisherView, ActionView) {
        if self.position < self.queue.len() {
            (self.in_phase(Phase::Downloading), ActionView::Download { path: self.current().path })
        } else {
            (self.in_phase(Phase::Finished), ActionView::Finish)
        }
    }

    /// Gives up publishing.
    pub open spec fn give_up(self, stop: Stop) -> (PublisherView, ActionView) {
        (self.in_phase(Phase::Aborted), ActionView::Abort(stop))
    }

    /// The state after `event`, and the action that answers it.
    ///
    /// Each candidate is downloaded, then uploaded, then released, and only
    /// then the next one is turned to. A failed request ends publishing, and
    /// so does an event that answers no request under way. Once publishing
    /// has come to its end nothing changes any more.
    pub open spec fn step(self, event: EventView) -> (PublisherView, ActionView) {
        match (self.phase, event) {
            (Phase::Finished, _) | (Phase::Aborted, _) => (self, ActionView::Abort(Stop::OutOfTurn)),
            (Phase::Ready, EventView::Started) => self.turn_to_next(),
            (Phase::Downloading, EventView::Downloaded(contents)) => match upload_of(
                self.project,
                self.package_name,
                self.current(),
                contents,
            ) {
                Some(upload) => (self.in_phase(Phase::Uploading), ActionView::Upload(upload)),
                None => self.give_up(Stop::NoFileName),
            },
            (Phase::Uploading, EventView::Uploaded) => (
                self.in_phase(Phase::Releasing),
                ActionView::Release(release_of(self.project, self.current().version)),
            ),
            (Phase::Releasing, EventView::Released) => (PublisherView {
                position: self.position + 1,
                ..self
            }).turn_to_next(),
            (Phase::Downloading, EventView::Failed) => self.give_up(Stop::Failed(Stage::Download)),
            (Phase::Uploading, EventView::Failed) => self.give_up(Stop::Failed(Stage::Upload)),
            (Phase::Releasing, EventView::Failed) => self.give_up(Stop::Failed(Stage::Release)),
            _ => self.give_up(Stop::OutOfTurn),
        }
    }

    /// The state after all of `events`, one after the other.
    pub open spec fn after(self, events: Seq<EventView>) -> PublisherView
        decreases events.len(),
    {
        if events.len() == 0 {
            self
        } else {
            self.after(events.drop_last()).step(events.last()).0
        }
    }

    /// The action that answers `events[at]` when `events` come one after the
    /// other.
    pub open spec fn action_at(self, events: Seq<EventView>, at: int) -> ActionView {
        self.after(events.take(at)).step(events[at]).1
    }
}

/// Whatever happens, the publisher keeps its project, its package name and
/// its queue, stays well-formed, and never goes back in its queue.
pub proof fn lemma_steps_keep_the_queue(start: PublisherView, events: Seq<EventView>)
    requires
        start.wf(),
    ensures
        start.after(events).wf(),
        start.after(events).project == start.project,
        start.after(events).package_name == start.package_name,
        start.after(events).queue == start.queue,
        start.after(events).position >= start.position,
    decreases events.len(),
{
    if events.len() > 0 {
        lemma_steps_keep_the_queue(start, events.drop_last());
    }
}

/// The upload comes before the release: a release is asked for only in answer
/// to the report that an upload succeeded, and the request just before it was
/// that upload, of the same candidate under the version that the release is
/// made for.
pub proof fn lemma_upload_precedes_release(
    start: PublisherView,
    events: Seq<EventView>,
    at: int,
)
    requires
        start.wf(),
        start.phase is Ready,
        0 <= at < events.len(),
        start.action_at(events, at) is Release,
    ensures
        at > 0,
        events[at] is Uploaded,
        events[at - 1] is Downloaded,
        ({
            let candidate = start.after(events.take(at)).current();
            &&& start.queue.contains(candidate)
            &&& start.action_at(events, at) == ActionView::Release(
                release_of(start.project, candidate.version),
            )
            &&& Some(start.action_at(events, at - 1)->Upload_0) == upload_of(
                start.project,
                start.package_name,
                candidate,
                events[at - 1]->Downloaded_0,
            )
            &&& start.action_at(events, at - 1) is Upload
        }),
{
    let seen = events.take(at);
    let before = start.after(seen);
    lemma_steps_keep_the_queue(start, seen);
    assert(before.phase is Uploading);
    assert(at > 0) by {
        if at == 0 {
            assert(seen.len() == 0);
        }
    }
    assert(seen.drop_last() == events.take(at - 1));
    assert(seen.last() == events[at - 1]);
    let earlier = start.after(events.take(at - 1));
    lemma_steps_keep_the_queue(start, events.take(at - 1));
    assert(before == earlier.step(events[at - 1]).0);
    assert(start.queue[before.position as int] == before.current());
}

/// Publishing stops for good: once the publisher has finished or given up, it
/// answers every event by refusing it, and asks for no request any more.
pub proof fn lemma_the_end_is_final(start: PublisherView, events: Seq<EventView>, at: int)
    requires
        start.phase is Finished || start.phase is Aborted,
        0 <= at < events.len(),
    ensures
        start.after(events) == start,
        start.action_at(events, at) == ActionView::Abort(Stop::OutOfTurn),
{
    lemma_the_end_stays(start, events);
    lemma_the_end_stays(start, events.take(at));
}

proof fn lemma_the_end_stays(start: PublisherView, events: Seq<EventView>)
    requires
        start.phase is Finished || start.phase is Aborted,
    ensures
        start.after(events) == start,
    decreases events.len(),
{
    if events.len() > 0 {
        lemma_the_end_stays(start, events.drop_last());
    }
}

/// A failure ends publishing at once: the report that a request failed is
/// answered by giving up, whatever request was under way.
pub proof fn lemma_failure_aborts(state: PublisherView)
    ensures
        state.step(EventView::Failed).1 is Abort,
        !(state.phase is Finished) ==> state.step(EventView::Failed).0.phase is Aborted,
{
}

/// Publishes the candidates one by one. It decides which request comes next;
/// the caller makes the request and reports how it went.
pub struct Publisher {
    gitlab: GitlabReleases,
    package_name: String,
    queue: Vec<Artifact>,
    position: usize,
    phase: Phase,
}

impl View for Publisher {
    type V = PublisherView;

    closed spec fn view(&self) -> PublisherView {
        PublisherView {
            project: self.gitlab.target().path_with_namespace,
            package_name: self.package_name@,
            queue: self.queue.deep_view(),
            position: self.position as nat,
            phase: self.phase,
        }
    }
}

impl Publisher {
    #[verifier::type_invariant]
    spec fn well_formed(self) -> bool {
        self@.wf()
    }

    /// A publisher for `candidates`, which uploads them to `gitlab`'s project
    /// under `package_name`.
    pub fn new(gitlab: GitlabReleases, package_name: String, candidates: Vec<Artifact>) -> (publisher:
        Publisher)
        ensures
            publisher@ == (PublisherView {
                project: gitlab.target().path_with_namespace,
                package_name: package_name@,
                queue: candidates.deep_view(),
                position: 0,
                phase: Phase::Ready,
            }),
            publisher@.wf(),
    {
        Publisher { gitlab, package_name, queue: candidates, position: 0, phase: Phase::Ready }
    }

    /// Where publishing stands.
    pub fn phase(&self) -> (phase: Phase)
        ensures
            phase == self@.phase,
    {
        self.phase
    }

    /// How many candidates are published.
    pub fn published(&self) -> (count: usize)
        ensures
            count == self@.position,
            self@.wf(),
    {
        proof {
            use_type_invariant(self);
        }
        self.position
    }

    /// The candidate at the current position of the queue: the first one
    /// that is not published yet, whether or not a request for it is under
    /// way. There is none once the queue is used up.
    pub fn current(&self) -> (artifact: Option<&Artifact>)
        ensures
            match artifact {
                Some(found) => self@.position < self@.queue.len() && found@ == self@.current(),
                None => self@.position >= self@.queue.len(),
            },
    {
        if self.position < self.queue.len() {
            Some(&self.queue[self.position])
        } else {
            None
        }
    }

    fn turn_to_next(&mut self) -> (action: Action)
        requires
            old(self)@.phase is Ready,
        ensures
            (final(self)@, action@) == old(self)@.turn_to_next(),
    {
        proof {
            use_type_invariant(&*self);
        }
        if self.position < self.queue.len() {
            self.phase = Phase::Downloading;
            Action::Download { path: self.queue[self.position].s3_path.clone() }
        } else {
            self.phase = Phase::Finished;
            Action::Finish
        }
    }

    fn give_up(&mut self, stop: Stop) -> (action: Action)
        ensures
            (final(self)@, action@) == old(self)@.give_up(stop),
    {
        proof {
            use_type_invariant(&*self);
        }
        self.phase = Phase::Aborted;
        Action::Abort(stop)
    }

    /// Takes in what happened and says what to do next.
    pub fn step(&mut self, event: Event) -> (action: Action)
        ensures
            (final(self)@, action@) == old(self)@.step(event@),
            final(self)@.wf(),
    {
        proof {
            use_type_invariant(&*self);
        }
        match self.phase {
            Phase::Finished | Phase::Aborted => Action::Abort(Stop::OutOfTurn),
            Phase::Ready => match event {
                Event::Started => self.turn_to_next(),
                _ => self.give_up(Stop::OutOfTurn),
            },
            Phase::Downloading => match event {
                Event::Downloaded(contents) => {
                    match self.gitlab.add_package(
                        &self.package_name,
                        &self.queue[self.position],
                        contents,
                    ) {
                        Ok(upload) => {
                            self.phase = Phase::Uploading;
                            Action::Upload(upload)
                        },
                        Err(_) => self.give_up(Stop::NoFileName),
                    }
                },
                Event::Failed => self.give_up(Stop::Failed(Stage::Download)),
                _ => self.give_up(Stop::OutOfTurn),
            },
            Phase::Uploading => match event {
                Event::Uploaded => {
                    let release = self.gitlab.add_release(&self.queue[self.position]);
                    self.phase = Phase::Releasing;
                    Action::Release(release)
                },
                Event::Failed => self.give_up(Stop::Failed(Stage::Upload)),
                _ => self.give_up(Stop::OutOfTurn),
            },
            Phase::Releasing => match event {
                Event::Released => {
                    proof {
                        assert(self.queue.deep_view().len() == self.queue.len());
                    }
                    self.phase = Phase::Ready;
                    self.position = self.position + 1;
                    self.turn_to_next()
                },
                Event::Failed => self.give_up(Stop::Failed(Stage::Release)),
                _ => self.give_up(Stop::OutOfTurn),
            },
        }
    }
}

} // verus!
