//! The open document, its current revision and result, and what the interface may do with it.
use vstd::prelude::*;

use crate::codec::{DecodedImage, SourceFormat};
use crate::events::{DocumentId, ProcessingEvent, RequestIdentity, Revision};
use crate::raster::Raster;
use crate::viewer::{ImageVariant, ViewImageId};
use std::path::PathBuf;
use std::sync::Arc;

verus! {

#[verifier::external_type_specification]
#[verifier::external_body]
pub struct ExPathBuf(PathBuf);

#[derive(Clone, Copy, Debug, PartialEq, Eq, Structural)]
pub enum ResultView {
    Original,
    Result,
}

/// What the interface shows about the document. A render in progress keeps its progress amount
/// beside this state, in the application.
#[derive(Clone, Debug, PartialEq, Eq)]
pub enum Status {
    Empty,
    Loading,
    LoadFailed(String),
    Processing,
    ResultReady,
    RenderFailed(String),
    Saving,
    SaveFailed(String),
}

#[derive(Clone, Debug)]
pub struct Document {
    pub id: DocumentId,
    pub revision: Revision,
    pub name: String,
    pub source_path: Option<PathBuf>,
    pub source_format: SourceFormat,
    pub source: Arc<Raster>,
    pub result: Option<(Revision, Arc<Raster>)>,
}

#[derive(Clone, Debug)]
pub struct DocumentState {
    pub document: Option<Document>,
    pub status: Status,
    pub view: ResultView,
    pub error_details: Option<String>,
}

/// The document with another revision.
pub open spec fn with_revision(d: Document, revision: Revision) -> Document {
    Document { revision, ..d }
}

/// The document with another result.
pub open spec fn with_result(d: Document, result: Option<(Revision, Arc<Raster>)>) -> Document {
    Document { result, ..d }
}

impl DocumentState {
    /// The identity of the document's current revision.
    pub open spec fn current(self) -> Option<RequestIdentity> {
        match self.document {
            Some(d) => Some(RequestIdentity { document_id: d.id, revision: d.revision }),
            None => None,
        }
    }

    /// A result is never newer than the revision it is shown for.
    pub open spec fn results_not_ahead(self) -> bool {
        self.document matches Some(d) ==> (d.result matches Some(result) ==> result.0@ <= d.revision@)
    }

    /// Whether an event belongs to the open document's current revision.
    pub open spec fn accepts(self, event: ProcessingEvent) -> bool {
        self.current() == Some(event.spec_identity())
    }

    /// There is a result for the current revision and no save is running.
    pub open spec fn spec_can_save(self) -> bool {
        &&& self.document matches Some(d)
        &&& d.result matches Some(result)
        &&& result.0 == d.revision
        &&& !(self.status is Saving)
    }

    /// The shown result belongs to an older revision.
    pub open spec fn spec_result_is_stale(self) -> bool {
        &&& self.document matches Some(d)
        &&& d.result matches Some(result)
        &&& result.0 != d.revision
    }

    /// The raster on screen: the source, or the latest result while one exists.
    pub open spec fn spec_displayed(self) -> Option<Arc<Raster>> {
        match self.document {
            None => None,
            Some(d) => match self.view {
                ResultView::Original => Some(d.source),
                ResultView::Result => match d.result {
                    Some(result) => Some(result.1),
                    None => Some(d.source),
                },
            },
        }
    }

    /// The identity of the image on screen and its raster: the source as revision zero of the
    /// original, or the latest result under the revision it was made for.
    pub open spec fn spec_displayed_image(self) -> Option<(ViewImageId, Arc<Raster>)> {
        match self.document {
            None => None,
            Some(d) => {
                let original = (
                    ViewImageId { document: d.id@, revision: 0, variant: ImageVariant::Original },
                    d.source,
                );
                match self.view {
                    ResultView::Original => Some(original),
                    ResultView::Result => match d.result {
                        Some(result) => Some(
                            (
                                ViewImageId {
                                    document: d.id@,
                                    revision: result.0@,
                                    variant: ImageVariant::Result,
                                },
                                result.1,
                            ),
                        ),
                        None => Some(original),
                    },
                }
            },
        }
    }

    /// What a settings change does: a new revision that awaits its render, or, at the last
    /// revision, a render failure with the document kept.
    pub open spec fn settings_changed_post(self, after: Self, changed: bool) -> bool {
        match self.document {
            None => !changed && after == self,
            Some(d) => if d.revision@ == u64::MAX {
                &&& !changed
                &&& after.document == self.document
                &&& after.status matches Status::RenderFailed(m)
                &&& m@ == "No se pueden crear más revisiones"@
                &&& after.view == self.view
                &&& after.error_details == self.error_details
            } else {
                &&& changed
                &&& after.document matches Some(a)
                &&& a.revision@ == d.revision@ + 1
                &&& a == with_revision(d, a.revision)
                &&& after.status == Status::Processing
                &&& after.view == self.view
                &&& after.error_details is None
            },
        }
    }

    /// What an event does: ignored unless it belongs to the current revision; otherwise progress
    /// marks the render as running, a completed render becomes the result and is shown, and a
    /// failure is reported with its description.
    pub open spec fn event_post(self, event: ProcessingEvent, after: Self, accepted: bool) -> bool {
        if !self.accepts(event) {
            !accepted && after == self
        } else {
            &&& accepted
            &&& self.document matches Some(d)
            &&& match event {
                ProcessingEvent::Progress { .. } => {
                    &&& after.document == self.document
                    &&& after.status == Status::Processing
                    &&& after.view == self.view
                    &&& after.error_details == self.error_details
                },
                ProcessingEvent::Completed { revision, raster, .. } => {
                    &&& after.document matches Some(a)
                    &&& a.result matches Some(result)
                    &&& result.0 == revision
                    &&& *result.1 == raster
                    &&& a == with_result(d, a.result)
                    &&& after.status == Status::ResultReady
                    &&& after.view == ResultView::Result
                    &&& after.error_details == self.error_details
                },
                ProcessingEvent::Failed { error, .. } => {
                    &&& after.document == self.document
                    &&& after.status matches Status::RenderFailed(m)
                    &&& m@ == "No se pudo procesar la imagen"@
                    &&& after.view == self.view
                    &&& after.error_details matches Some(details)
                    &&& details@ == error.spec_message()
                },
            }
        }
    }

    /// What starting a save does: it runs only when a current result can be saved.
    pub open spec fn save_started_post(self, after: Self) -> bool {
        if self.spec_can_save() {
            &&& after.document == self.document
            &&& after.status == Status::Saving
            &&& after.view == self.view
            &&& after.error_details is None
        } else {
            after == self
        }
    }

    /// What a finished save does: a running save ends with the result ready.
    pub open spec fn save_succeeded_post(self, after: Self) -> bool {
        if self.status is Saving {
            &&& after.document == self.document
            &&& after.status == Status::ResultReady
            &&& after.view == self.view
            &&& after.error_details == self.error_details
        } else {
            after == self
        }
    }

    pub fn new() -> (state: DocumentState)
        ensures
            state.document is None,
            state.status == Status::Empty,
            state.view == ResultView::Result,
            state.error_details is None,
    {
        DocumentState {
            document: None,
            status: Status::Empty,
            view: ResultView::Result,
            error_details: None,
        }
    }

    pub fn start_loading(&mut self)
        ensures
            final(self).document == old(self).document,
            final(self).status == Status::Loading,
            final(self).view == old(self).view,
            final(self).error_details is None,
    {
        self.status = Status::Loading;
        self.error_details = None;
    }

    /// Opens a decoded image as the document at revision one, without a result yet.
    pub fn load_succeeded(
        &mut self,
        id: DocumentId,
        name: String,
        source_path: Option<PathBuf>,
        decoded: DecodedImage,
    )
        ensures
            final(self).document matches Some(d) && d.id == id && d.revision@ == 1 && d.name == name
                && d.source_path == source_path && d.source_format == decoded.format && *d.source
                == decoded.raster && d.result is None,
            final(self).status == Status::Processing,
            final(self).view == ResultView::Result,
            final(self).error_details is None,
    {
        self.document = Some(
            Document {
                id,
                revision: Revision::new(1),
                name,
                source_path,
                source_format: decoded.format,
                source: Arc::new(decoded.raster),
                result: None,
            },
        );
        self.status = Status::Processing;
        self.view = ResultView::Result;
        self.error_details = None;
    }

    /// Reports a failed load and keeps the document that was open.
    pub fn load_failed(&mut self, message: String, details: String)
        ensures
            final(self).document == old(self).document,
            final(self).status == Status::LoadFailed(message),
            final(self).view == old(self).view,
            final(self).error_details == Some(details),
    {
        self.status = Status::LoadFailed(message);
        self.error_details = Some(details);
    }

    /// Moves the document to a new revision after its settings changed.
    pub fn settings_changed(&mut self) -> (changed: bool)
        ensures
            old(self).settings_changed_post(*final(self), changed),
    {
        let revision = match &self.document {
            None => return false,
            Some(document) => document.revision.next(),
        };
        match revision {
            None => {
                self.status = Status::RenderFailed("No se pueden crear más revisiones".to_owned());
                false
            },
            Some(revision) => {
                let mut document = self.document.take().unwrap();
                document.revision = revision;
                self.document = Some(document);
                self.status = Status::Processing;
                self.error_details = None;
                true
            },
        }
    }

    /// Applies a worker event if it belongs to the current revision, and says whether it did.
    pub fn apply_processing_event(&mut self, event: ProcessingEvent) -> (accepted: bool)
        ensures
            old(self).event_post(event, *final(self), accepted),
    {
        let current = match &self.document {
            None => return false,
            Some(document) => RequestIdentity {
                document_id: document.id,
                revision: document.revision,
            },
        };
        if event.identity() != current {
            return false;
        }
        match event {
            ProcessingEvent::Progress { .. } => {
                self.status = Status::Processing;
            },
            ProcessingEvent::Completed { revision, raster, .. } => {
                let mut document = self.document.take().unwrap();
                document.result = Some((revision, Arc::new(raster)));
                self.document = Some(document);
                self.status = Status::ResultReady;
                self.view = ResultView::Result;
            },
            ProcessingEvent::Failed { error, .. } => {
                self.status = Status::RenderFailed("No se pudo procesar la imagen".to_owned());
                self.error_details = Some(error.message());
            },
        }
        true
    }

    pub fn can_save(&self) -> (can: bool)
        ensures
            can == self.spec_can_save(),
    {
        let current = match &self.document {
            None => return false,
            Some(document) => match &document.result {
                None => false,
                Some(result) => result.0 == document.revision,
            },
        };
        let saving = match self.status {
            Status::Saving => true,
            _ => false,
        };
        current && !saving
    }

    pub fn displayed_raster(&self) -> (shown: Option<&Arc<Raster>>)
        ensures
            shown matches Some(r) ==> self.spec_displayed() == Some(*r),
            shown is None ==> self.spec_displayed() is None,
    {
        match &self.document {
            None => None,
            Some(document) => match self.view {
                ResultView::Original => Some(&document.source),
                ResultView::Result => match &document.result {
                    Some(result) => Some(&result.1),
                    None => Some(&document.source),
                },
            },
        }
    }

    /// The image that the viewer shows, with the identity its textures are cached under.
    pub fn displayed_image(&self) -> (shown: Option<(ViewImageId, &Arc<Raster>)>)
        ensures
            shown matches Some(image) ==> self.spec_displayed_image() == Some((image.0, *image.1)),
            shown is None ==> self.spec_displayed_image() is None,
    {
        match &self.document {
            None => None,
            Some(document) => {
                let original = ViewImageId {
                    document: document.id.get(),
                    revision: 0,
                    variant: ImageVariant::Original,
                };
                match self.view {
                    ResultView::Original => Some((original, &document.source)),
                    ResultView::Result => match &document.result {
                        Some(result) => Some(
                            (
                                ViewImageId {
                                    document: document.id.get(),
                                    revision: result.0.get(),
                                    variant: ImageVariant::Result,
                                },
                                &result.1,
                            ),
                        ),
                        None => Some((original, &document.source)),
                    },
                }
            },
        }
    }

    pub fn result_is_stale(&self) -> (stale: bool)
        ensures
            stale == self.spec_result_is_stale(),
    {
        match &self.document {
            None => false,
            Some(document) => match &document.result {
                None => false,
                Some(result) => result.0 != document.revision,
            },
        }
    }

    pub fn save_started(&mut self)
        ensures
            old(self).save_started_post(*final(self)),
    {
        if self.can_save() {
            self.status = Status::Saving;
            self.error_details = None;
        }
    }

    pub fn save_succeeded(&mut self)
        ensures
            old(self).save_succeeded_post(*final(self)),
    {
        let saving = match self.status {
            Status::Saving => true,
            _ => false,
        };
        if saving {
            self.status = Status::ResultReady;
        }
    }

    pub fn save_failed(&mut self, message: String, details: String)
        ensures
            final(self).document == old(self).document,
            final(self).status == Status::SaveFailed(message),
            final(self).view == old(self).view,
            final(self).error_details == Some(details),
    {
        self.status = Status::SaveFailed(message);
        self.error_details = Some(details);
    }
}

impl Default for DocumentState {
    fn default() -> (state: DocumentState)
        ensures
            state.document is None,
            state.status == Status::Empty,
            state.view == ResultView::Result,
            state.error_details is None,
    {
        DocumentState::new()
    }
}

/// Every change of state keeps each result no newer than the document's revision, starting from
/// a freshly loaded document, which has no result.
pub proof fn law_results_never_ahead_of_the_revision(
    before: DocumentState,
    changed: DocumentState,
    changed_flag: bool,
    event: ProcessingEvent,
    applied: DocumentState,
    accepted: bool,
    started: DocumentState,
    saved: DocumentState,
)
    requires
        before.results_not_ahead(),
        before.settings_changed_post(changed, changed_flag),
        before.event_post(event, applied, accepted),
        before.save_started_post(started),
        before.save_succeeded_post(saved),
    ensures
        changed.results_not_ahead(),
        applied.results_not_ahead(),
        started.results_not_ahead(),
        saved.results_not_ahead(),
{
}

/// A render result made for the revision before a settings change is never taken as the result
/// and never enables saving: once the settings change, events of the old revision are ignored.
pub proof fn law_old_results_never_apply(
    before: DocumentState,
    changed: DocumentState,
    event: ProcessingEvent,
    after: DocumentState,
    accepted: bool,
)
    requires
        before.results_not_ahead(),
        before.settings_changed_post(changed, true),
        before.accepts(event),
        changed.event_post(event, after, accepted),
    ensures
        !accepted,
        after == changed,
        !after.spec_can_save(),
{
}

/// A completed render of the current revision enables saving, and it stops doing so, becoming a
/// stale preview, as soon as the settings change.
pub proof fn law_current_result_enables_save_until_settings_change(
    loaded: DocumentState,
    document_id: DocumentId,
    revision: Revision,
    raster: Raster,
    rendered: DocumentState,
    accepted: bool,
    changed: DocumentState,
)
    requires
        loaded.current() == Some(RequestIdentity { document_id, revision }),
        loaded.event_post(
            ProcessingEvent::Completed { document_id, revision, raster },
            rendered,
            accepted,
        ),
        rendered.settings_changed_post(changed, true),
    ensures
        accepted,
        rendered.spec_can_save(),
        !changed.spec_can_save(),
        changed.spec_result_is_stale(),
        changed.spec_displayed() == rendered.spec_displayed(),
{
}

/// A save that fails gives saving back: the result stays current and can be saved again.
pub proof fn law_failed_save_can_be_retried(
    ready: DocumentState,
    saving: DocumentState,
    failed: DocumentState,
)
    requires
        ready.spec_can_save(),
        ready.save_started_post(saving),
        failed.document == saving.document,
        failed.status is SaveFailed,
    ensures
        saving.status == Status::Saving,
        !saving.spec_can_save(),
        failed.spec_can_save(),
{
}

/// A save that succeeds ends with the result ready and still savable.
pub proof fn law_finished_save_keeps_the_result(
    ready: DocumentState,
    saving: DocumentState,
    saved: DocumentState,
)
    requires
        ready.spec_can_save(),
        ready.save_started_post(saving),
        saving.save_succeeded_post(saved),
    ensures
        saved.status == Status::ResultReady,
        saved.document == ready.document,
        saved.spec_can_save(),
{
}

/// A result rendered for the current revision is not an outdated preview: right after a
/// completed render of the current revision is taken, the result is not stale.
pub proof fn law_a_current_result_is_not_stale(
    loaded: DocumentState,
    document_id: DocumentId,
    revision: Revision,
    raster: Raster,
    rendered: DocumentState,
    accepted: bool,
)
    requires
        loaded.current() == Some(RequestIdentity { document_id, revision }),
        loaded.event_post(
            ProcessingEvent::Completed { document_id, revision, raster },
            rendered,
            accepted,
        ),
    ensures
        !rendered.spec_result_is_stale(),
{
}

/// In the result view, the viewer shows the latest result under the identity of the revision
/// that the result was rendered for, not the document's current revision.
pub proof fn law_the_shown_result_keeps_its_own_revision(
    state: DocumentState,
    result_revision: Revision,
    result: Arc<Raster>,
)
    requires
        state.view == ResultView::Result,
        state.document matches Some(d) && d.result == Some((result_revision, result)),
    ensures
        state.spec_displayed_image() == Some(
            (
                ViewImageId {
                    document: state.document->Some_0.id@,
                    revision: result_revision@,
                    variant: ImageVariant::Result,
                },
                result,
            ),
        ),
{
}

/// A settings change does not change what the viewer shows nor the identity it is cached under:
/// until the new revision's render arrives, the previous result stays on screen under its own
/// revision, so the new result, when it comes, gets textures of its own.
pub proof fn law_a_settings_change_keeps_the_shown_image(before: DocumentState, after: DocumentState)
    requires
        before.settings_changed_post(after, true),
    ensures
        after.spec_displayed_image() == before.spec_displayed_image(),
{
}

} // verus!
