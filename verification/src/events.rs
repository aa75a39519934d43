//! Identities of documents, revisions and render requests, and the render outcomes.
use vstd::prelude::*;

use crate::config::{EffectConfig, EffectKind};
use crate::raster::{Raster, RasterError};
use std::sync::Arc;

verus! {

#[derive(Clone, Copy, Debug, PartialEq, Eq, Hash, Structural)]
pub struct DocumentId {
    value: u64,
}

impl View for DocumentId {
    type V = u64;

    closed spec fn view(&self) -> u64 {
        self.value
    }
}

impl DocumentId {
    /// Two ids are equal exactly when their numbers are.
    pub proof fn lemma_eq_iff_view_eq(a: DocumentId, b: DocumentId)
        ensures
            (a == b) <==> (a@ == b@),
    {
    }

    pub fn new(value: u64) -> (id: DocumentId)
        ensures
            id@ == value,
    {
        DocumentId { value }
    }

    pub fn get(self) -> (value: u64)
        ensures
            value == self@,
    {
        self.value
    }
}

/// The version of a document's settings; a result belongs to the revision it was made for.
#[derive(Clone, Copy, Debug, PartialEq, Eq, Hash, Structural)]
pub struct Revision {
    value: u64,
}

impl View for Revision {
    type V = u64;

    closed spec fn view(&self) -> u64 {
        self.value
    }
}

impl Revision {
    /// Two revisions are equal exactly when their numbers are.
    pub proof fn lemma_eq_iff_view_eq(a: Revision, b: Revision)
        ensures
            (a == b) <==> (a@ == b@),
    {
    }

    /// Revision zero.
    pub fn initial() -> (r: Revision)
        ensures
            r@ == 0,
    {
        Revision { value: 0 }
    }

    pub fn new(value: u64) -> (r: Revision)
        ensures
            r@ == value,
    {
        Revision { value }
    }

    pub fn get(self) -> (value: u64)
        ensures
            value == self@,
    {
        self.value
    }

    /// The following revision, or `None` at the last one: revisions never wrap around.
    pub fn next(self) -> (next: Option<Revision>)
        ensures
            self@ < u64::MAX ==> (next matches Some(n) && n@ == self@ + 1),
            self@ == u64::MAX ==> next is None,
    {
        match self.value.checked_add(1) {
            Some(value) => Some(Revision { value }),
            None => None,
        }
    }
}

/// The document and revision that a request or an event belongs to.
#[derive(Clone, Copy, Debug, PartialEq, Eq, Hash, Structural)]
pub struct RequestIdentity {
    pub document_id: DocumentId,
    pub revision: Revision,
}

/// A render of one document revision with one configuration.
#[derive(Clone, Debug)]
pub struct RenderRequest {
    pub document_id: DocumentId,
    pub revision: Revision,
    pub source: Arc<Raster>,
    pub config: EffectConfig,
}

impl RenderRequest {
    pub fn new(
        document_id: DocumentId,
        revision: Revision,
        source: Arc<Raster>,
        config: EffectConfig,
    ) -> (request: RenderRequest)
        ensures
            request.document_id == document_id,
            request.revision == revision,
            request.source == source,
            request.config == config,
    {
        RenderRequest { document_id, revision, source, config }
    }

    pub fn identity(&self) -> (identity: RequestIdentity)
        ensures
            identity == (RequestIdentity { document_id: self.document_id, revision: self.revision }),
    {
        RequestIdentity { document_id: self.document_id, revision: self.revision }
    }
}

/// Why a render did not produce an image.
#[derive(Clone, Debug, PartialEq, Eq, Structural)]
pub enum RenderError {
    Cancelled,
    EffectNotImplemented { effect: EffectKind },
    InvalidOutput(RasterError),
}

impl RenderError {
    pub open spec fn spec_message(&self) -> Seq<char> {
        match self {
            RenderError::Cancelled => "rendering was cancelled"@,
            RenderError::EffectNotImplemented { .. } => "the selected effect is not implemented"@,
            RenderError::InvalidOutput(_) => "the renderer produced an invalid image"@,
        }
    }

    /// The technical description of the error.
    pub fn message(&self) -> (text: String)
        ensures
            text@ == self.spec_message(),
    {
        match self {
            RenderError::Cancelled => "rendering was cancelled".to_owned(),
            RenderError::EffectNotImplemented { .. } => "the selected effect is not implemented".to_owned(),
            RenderError::InvalidOutput(_) => "the renderer produced an invalid image".to_owned(),
        }
    }
}

/// The error that a configuration without a renderer gives.
pub fn unavailable(effect: EffectKind) -> (result: Result<Raster, RenderError>)
    ensures
        result == Err::<Raster, RenderError>(RenderError::EffectNotImplemented { effect }),
{
    Err(RenderError::EffectNotImplemented { effect })
}

/// What the worker reports about one request. The progress amount of a progress report is kept
/// by the application beside the state that these events drive.
#[derive(Clone, Debug, PartialEq, Eq)]
pub enum ProcessingEvent {
    Progress { document_id: DocumentId, revision: Revision },
    Completed { document_id: DocumentId, revision: Revision, raster: Raster },
    Failed { document_id: DocumentId, revision: Revision, error: RenderError },
}

impl ProcessingEvent {
    pub open spec fn spec_identity(&self) -> RequestIdentity {
        match self {
            ProcessingEvent::Progress { document_id, revision } => RequestIdentity {
                document_id: *document_id,
                revision: *revision,
            },
            ProcessingEvent::Completed { document_id, revision, .. } => RequestIdentity {
                document_id: *document_id,
                revision: *revision,
            },
            ProcessingEvent::Failed { document_id, revision, .. } => RequestIdentity {
                document_id: *document_id,
                revision: *revision,
            },
        }
    }

    pub fn identity(&self) -> (identity: RequestIdentity)
        ensures
            identity == self.spec_identity(),
    {
        match self {
            ProcessingEvent::Progress { document_id, revision } => RequestIdentity {
                document_id: *document_id,
                revision: *revision,
            },
            ProcessingEvent::Completed { document_id, revision, .. } => RequestIdentity {
                document_id: *document_id,
                revision: *revision,
            },
            ProcessingEvent::Failed { document_id, revision, .. } => RequestIdentity {
                document_id: *document_id,
                revision: *revision,
            },
        }
    }
}

} // verus!
