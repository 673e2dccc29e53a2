//! The life of a document in a session: from the choice of a file to its
//! analysis, to a failure, or to the result of the recovery scan.
use vstd::prelude::*;

verus! {

/// Where a document stands.
#[derive(Clone, Copy, Debug, PartialEq, Eq, Structural)]
pub enum DocumentState {
    /// A file may have been chosen; nothing of it has been looked at.
    Unopened,
    /// The signature of the file was accepted; the document is being parsed.
    Opening,
    /// The document was parsed and analysed.
    Analyzed,
    /// The file was rejected, or parsing it failed.
    Failed,
    /// The recovery scan of the file is at hand.
    RecoveryAnalyzed,
}

/// What happened to a document.
#[derive(Clone, Copy, Debug, PartialEq, Eq, Structural)]
pub enum DocumentEvent {
    /// The user chose a file.
    FileSelected,
    /// The file starts with the signature of a PDF document.
    SignatureAccepted,
    /// The file could not be read or does not start with the signature.
    SignatureRejected,
    /// Parsing and analysis succeeded.
    PipelineSucceeded,
    /// Parsing or analysis failed.
    PipelineFailed,
    /// The user asked for the recovery scan.
    RecoveryRequested,
}

/// What is to be done next for a document.
#[derive(Clone, Copy, Debug, PartialEq, Eq, Structural)]
pub enum DocumentAction {
    /// Nothing.
    Wait,
    /// Read the file and check its signature.
    CheckSignature,
    /// Parse the document and analyse it.
    RunPipeline,
    /// Scan the bytes of the file.
    RunRecovery,
}

/// The state that an event leads to. A file is chosen anew from any state in
/// which the work on the last one has ended. An event that a state does not
/// expect leaves the state as it is.
pub open spec fn next_state(state: DocumentState, event: DocumentEvent) -> DocumentState {
    match (state, event) {
        (DocumentState::Unopened, DocumentEvent::SignatureAccepted) => DocumentState::Opening,
        (DocumentState::Unopened, DocumentEvent::SignatureRejected) => DocumentState::Failed,
        (DocumentState::Opening, DocumentEvent::PipelineSucceeded) => DocumentState::Analyzed,
        (DocumentState::Opening, DocumentEvent::PipelineFailed) => DocumentState::Failed,
        (DocumentState::Failed, DocumentEvent::RecoveryRequested) => DocumentState::RecoveryAnalyzed,
        (DocumentState::Analyzed, DocumentEvent::FileSelected) => DocumentState::Unopened,
        (DocumentState::Failed, DocumentEvent::FileSelected) => DocumentState::Unopened,
        (DocumentState::RecoveryAnalyzed, DocumentEvent::FileSelected) => DocumentState::Unopened,
        _ => state,
    }
}

/// What is to be done once an event has led from one state to the next: the
/// signature is checked when a file is chosen, the document is parsed when
/// its signature was accepted, the bytes are scanned when the recovery scan
/// was asked for after a failure.
pub open spec fn next_action(state: DocumentState, event: DocumentEvent) -> DocumentAction {
    match (state, event) {
        (DocumentState::Unopened, DocumentEvent::FileSelected) => DocumentAction::CheckSignature,
        (DocumentState::Analyzed, DocumentEvent::FileSelected) => DocumentAction::CheckSignature,
        (DocumentState::Failed, DocumentEvent::FileSelected) => DocumentAction::CheckSignature,
        (DocumentState::RecoveryAnalyzed, DocumentEvent::FileSelected) => {
            DocumentAction::CheckSignature
        },
        (DocumentState::Unopened, DocumentEvent::SignatureAccepted) => DocumentAction::RunPipeline,
        (DocumentState::Failed, DocumentEvent::RecoveryRequested) => DocumentAction::RunRecovery,
        _ => DocumentAction::Wait,
    }
}

impl DocumentState {
    /// The state in which a session starts.
    pub fn new() -> (r: Self)
        ensures
            r == DocumentState::Unopened,
    {
        DocumentState::Unopened
    }

    /// The state that the event leads to, and what is to be done next.
    pub fn step(self, event: DocumentEvent) -> (r: (DocumentState, DocumentAction))
        ensures
            r.0 == next_state(self, event),
            r.1 == next_action(self, event),
    {
        match (self, event) {
            (DocumentState::Unopened, DocumentEvent::FileSelected) => (
                DocumentState::Unopened,
                DocumentAction::CheckSignature,
            ),
            (DocumentState::Unopened, DocumentEvent::SignatureAccepted) => (
                DocumentState::Opening,
                DocumentAction::RunPipeline,
            ),
            (DocumentState::Unopened, DocumentEvent::SignatureRejected) => (
                DocumentState::Failed,
                DocumentAction::Wait,
            ),
            (DocumentState::Opening, DocumentEvent::PipelineSucceeded) => (
                DocumentState::Analyzed,
                DocumentAction::Wait,
            ),
            (DocumentState::Opening, DocumentEvent::PipelineFailed) => (
                DocumentState::Failed,
                DocumentAction::Wait,
            ),
            (DocumentState::Failed, DocumentEvent::RecoveryRequested) => (
                DocumentState::RecoveryAnalyzed,
                DocumentAction::RunRecovery,
            ),
            (DocumentState::Analyzed, DocumentEvent::FileSelected) => (
                DocumentState::Unopened,
                DocumentAction::CheckSignature,
            ),
            (DocumentState::Failed, DocumentEvent::FileSelected) => (
                DocumentState::Unopened,
                DocumentAction::CheckSignature,
            ),
            (DocumentState::RecoveryAnalyzed, DocumentEvent::FileSelected) => (
                DocumentState::Unopened,
                DocumentAction::CheckSignature,
            ),
            (state, _) => (state, DocumentAction::Wait),
        }
    }
}

/// The recovery scan is reached from a failure only, and a document is
/// analysed only from the state in which it is being opened.
pub proof fn lemma_reachability(state: DocumentState, event: DocumentEvent)
    ensures
        next_state(state, event) == DocumentState::RecoveryAnalyzed ==> state
            == DocumentState::Failed || state == DocumentState::RecoveryAnalyzed,
        next_state(state, event) == DocumentState::Analyzed ==> state == DocumentState::Opening
            || state == DocumentState::Analyzed,
        next_state(state, event) == DocumentState::Opening ==> state == DocumentState::Unopened
            || state == DocumentState::Opening,
{
}

} // verus!
