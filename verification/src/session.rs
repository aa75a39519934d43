//! The application's session: the document state, the settings that render it, and the
//! bookkeeping of the loads and saves that run in the background.
use vstd::prelude::*;

use crate::codec::DecodedImage;
use crate::document::{DocumentState, ResultView, Status};
use crate::events::{DocumentId, Revision};
use crate::settings::Settings;
use std::path::PathBuf;

verus! {

/// Everything the interface decides with: the document state, the settings, whether a new
/// image keeps them, the next document number and the number of the latest load.
#[derive(Clone, Debug)]
pub struct Session {
    pub state: DocumentState,
    pub settings: Settings,
    pub keep_settings: bool,
    pub next_document_id: u64,
    pub load_generation: u64,
}

/// `value + 1`, or `value` at the largest `u64`.
pub open spec fn saturating_inc(value: u64) -> u64 {
    if value == u64::MAX {
        value
    } else {
        (value + 1) as u64
    }
}

impl Session {
    /// What opening a decoded image as document `id` does: the settings are reset unless they
    /// are kept, the document number advances, and the image opens at revision one.
    pub open spec fn opened_post(
        self,
        after: Session,
        id: DocumentId,
        name: String,
        path: Option<PathBuf>,
        decoded: DecodedImage,
    ) -> bool {
        &&& id@ == self.next_document_id
        &&& after.next_document_id == saturating_inc(self.next_document_id)
        &&& if self.keep_settings {
            after.settings == self.settings
        } else {
            after.settings.is_default()
        }
        &&& after.keep_settings == self.keep_settings
        &&& after.load_generation == self.load_generation
        &&& after.state.document matches Some(d) && d.id == id && d.revision@ == 1 && d.name == name
            && d.source_path == path && d.source_format == decoded.format && *d.source
            == decoded.raster && d.result is None
        &&& after.state.status == Status::Processing
        &&& after.state.view == ResultView::Result
        &&& after.state.error_details is None
    }

    /// Only the state changes.
    pub open spec fn same_but_state(self, after: Session) -> bool {
        &&& after.settings == self.settings
        &&& after.keep_settings == self.keep_settings
        &&& after.next_document_id == self.next_document_id
        &&& after.load_generation == self.load_generation
    }

    /// A session without a document, with the default settings, that starts numbering
    /// documents at one.
    pub fn new() -> (session: Session)
        ensures
            session.state.document is None,
            session.state.status == Status::Empty,
            session.state.view == ResultView::Result,
            session.state.error_details is None,
            session.settings.is_default(),
            !session.keep_settings,
            session.next_document_id == 1,
            session.load_generation == 0,
    {
        Session {
            state: DocumentState::new(),
            settings: Settings::default(),
            keep_settings: false,
            next_document_id: 1,
            load_generation: 0,
        }
    }

    /// Starts a load: its number supersedes every earlier load, and the state shows loading.
    pub fn begin_load(&mut self) -> (generation: u64)
        ensures
            generation == final(self).load_generation,
            final(self).load_generation == saturating_inc(old(self).load_generation),
            final(self).state.document == old(self).state.document,
            final(self).state.status == Status::Loading,
            final(self).state.view == old(self).state.view,
            final(self).state.error_details is None,
            final(self).settings == old(self).settings,
            final(self).keep_settings == old(self).keep_settings,
            final(self).next_document_id == old(self).next_document_id,
    {
        self.load_generation = self.load_generation.saturating_add(1);
        self.state.start_loading();
        self.load_generation
    }

    /// Opens a decoded image as a new document and returns its number.
    pub fn open(&mut self, name: String, path: Option<PathBuf>, decoded: DecodedImage) -> (id:
        DocumentId)
        ensures
            old(self).opened_post(*final(self), id, name, path, decoded),
    {
        if !self.keep_settings {
            self.settings = Settings::default();
        }
        let id = DocumentId::new(self.next_document_id);
        self.next_document_id = self.next_document_id.saturating_add(1);
        self.state.load_succeeded(id, name, path, decoded);
        id
    }

    /// Applies the outcome of load `generation`: an outcome of an earlier load changes nothing;
    /// otherwise the image opens, or the failure is reported with the document kept.
    pub fn load_finished(
        &mut self,
        generation: u64,
        name: String,
        path: Option<PathBuf>,
        outcome: Result<DecodedImage, (String, String)>,
    ) -> (opened: Option<DocumentId>)
        ensures
            generation != old(self).load_generation ==> opened is None && final(self).state
                == old(self).state && old(self).same_but_state(*final(self)),
            generation == old(self).load_generation ==> match outcome {
                Ok(decoded) => opened matches Some(id) && old(self).opened_post(
                    *final(self),
                    id,
                    name,
                    path,
                    decoded,
                ),
                Err((message, details)) => {
                    &&& opened is None
                    &&& final(self).state.document == old(self).state.document
                    &&& final(self).state.status == Status::LoadFailed(message)
                    &&& final(self).state.view == old(self).state.view
                    &&& final(self).state.error_details == Some(details)
                    &&& old(self).same_but_state(*final(self))
                },
            },
    {
        if generation != self.load_generation {
            return None;
        }
        match outcome {
            Ok(decoded) => Some(self.open(name, path, decoded)),
            Err((message, details)) => {
                self.state.load_failed(message, details);
                None
            },
        }
    }

    /// Whether a save of `(document_id, revision)` belongs to the current revision.
    pub open spec fn save_is_current(self, document_id: DocumentId, revision: Revision) -> bool {
        self.state.document matches Some(d) && d.id == document_id && d.revision == revision
    }

    /// Applies the outcome of a save: a save of another document or revision changes nothing;
    /// otherwise a success ends the save and a failure is reported with its details.
    pub fn save_finished(
        &mut self,
        document_id: DocumentId,
        revision: Revision,
        outcome: Result<(), String>,
    ) -> (applied: bool)
        ensures
            applied == old(self).save_is_current(document_id, revision),
            !applied ==> final(self).state == old(self).state,
            applied ==> match outcome {
                Ok(()) => old(self).state.save_succeeded_post(final(self).state),
                Err(details) => {
                    &&& final(self).state.document == old(self).state.document
                    &&& final(self).state.status matches Status::SaveFailed(m)
                    &&& m@ == "No se pudo guardar la imagen"@
                    &&& final(self).state.view == old(self).state.view
                    &&& final(self).state.error_details == Some(details)
                },
            },
            old(self).same_but_state(*final(self)),
    {
        let current = match &self.state.document {
            None => false,
            Some(document) => document.id == document_id && document.revision == revision,
        };
        if !current {
            return false;
        }
        match outcome {
            Ok(()) => self.state.save_succeeded(),
            Err(details) => self.state.save_failed("No se pudo guardar la imagen".to_owned(), details),
        }
        true
    }

    /// Whether the settings panel accepts changes: a document is open and no load or save runs.
    pub fn settings_enabled(&self) -> (enabled: bool)
        ensures
            enabled == (self.state.document is Some && !(self.state.status is Loading)
                && !(self.state.status is Saving)),
    {
        let busy = match self.state.status {
            Status::Loading => true,
            Status::Saving => true,
            _ => false,
        };
        self.state.document.is_some() && !busy
    }
}

/// Two documents opened one after the other get different numbers, as long as the numbers have
/// not run out, so a late event or save of the first never matches the second.
pub proof fn law_opened_documents_get_new_numbers(
    first: Session,
    second: Session,
    third: Session,
    id1: DocumentId,
    id2: DocumentId,
    name1: String,
    name2: String,
    path1: Option<PathBuf>,
    path2: Option<PathBuf>,
    decoded1: DecodedImage,
    decoded2: DecodedImage,
)
    requires
        first.next_document_id < u64::MAX,
        first.opened_post(second, id1, name1, path1, decoded1),
        second.opened_post(third, id2, name2, path2, decoded2),
    ensures
        id1 != id2,
        id1@ < id2@,
{
}

} // verus!
