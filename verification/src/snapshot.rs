//! The decisions of the two-phase exchange by which a snapshot of the
//! database is fetched from the store that holds it.
//!
//! The store is asked twice: first with a buffer of no capacity, to learn how
//! many bytes the snapshot needs, then with a buffer of that many bytes. The
//! calls themselves are made by the caller; the functions here say what to do
//! next after each reply.
use vstd::prelude::*;

verus! {

/// What the store answered to a request for the snapshot.
#[derive(Clone, Copy, Debug, PartialEq, Eq, Structural)]
pub enum ExportReply {
    /// The buffer was too small; the snapshot needs this many bytes.
    InsufficientSize(usize),
    /// The snapshot was written to the buffer and has this many bytes.
    Filled(usize),
    /// The store failed, with this status.
    Failed(usize),
}

/// Why no snapshot could be fetched.
#[derive(Clone, Copy, Debug, PartialEq, Eq, Structural)]
pub enum ExportError {
    /// The store failed, with this status.
    StoreError(usize),
    /// The store found a buffer of the size that it had asked for too small,
    /// or claims to have written more bytes than the buffer holds.
    InconsistentSnapshotSize,
}

/// Where the exchange stands.
#[derive(Clone, Copy, Debug, PartialEq, Eq, Structural)]
pub enum ExportState {
    /// The store was asked with a buffer of no capacity.
    SizeAsked,
    /// The store was asked with a buffer of this many bytes.
    FillAsked(usize),
    /// The exchange is over.
    Done,
}

/// What the caller does next.
#[derive(Clone, Copy, Debug, PartialEq, Eq, Structural)]
pub enum ExportAction {
    /// Allocate a buffer of this many bytes and ask the store again.
    Fill(usize),
    /// The first bytes of the buffer, this many, are the snapshot.
    Deliver(usize),
    /// Give up with this error.
    Fail(ExportError),
    /// Nothing: the exchange was over before the reply.
    Nothing,
}

/// The state that follows `state` on `reply`, and what the caller does next.
///
/// After the first request, a reply that the buffer is too small leads to the
/// second request with the size that the store named, and a reply that the
/// snapshot was written delivers it (it has no bytes, for the buffer had none).
/// After the second request, a written snapshot is delivered if it fits the
/// buffer; a reply that the buffer is too small, or a snapshot larger than the
/// buffer, is an inconsistency. A failure of the store is passed on with its
/// status.
pub open spec fn spec_export_step(state: ExportState, reply: ExportReply) -> (
    ExportState,
    ExportAction,
) {
    match (state, reply) {
        (ExportState::Done, _) => (ExportState::Done, ExportAction::Nothing),
        (_, ExportReply::Failed(status)) => (
            ExportState::Done,
            ExportAction::Fail(ExportError::StoreError(status)),
        ),
        (ExportState::SizeAsked, ExportReply::InsufficientSize(required)) => (
            ExportState::FillAsked(required),
            ExportAction::Fill(required),
        ),
        (ExportState::SizeAsked, ExportReply::Filled(written)) => if written == 0 {
            (ExportState::Done, ExportAction::Deliver(0))
        } else {
            (ExportState::Done, ExportAction::Fail(ExportError::InconsistentSnapshotSize))
        },
        (ExportState::FillAsked(capacity), ExportReply::Filled(written)) => if written
            <= capacity {
            (ExportState::Done, ExportAction::Deliver(written))
        } else {
            (ExportState::Done, ExportAction::Fail(ExportError::InconsistentSnapshotSize))
        },
        (ExportState::FillAsked(_), ExportReply::InsufficientSize(_)) => (
            ExportState::Done,
            ExportAction::Fail(ExportError::InconsistentSnapshotSize),
        ),
    }
}

/// The state in which the exchange starts: the caller asks the store with a
/// buffer of no capacity.
pub fn export_start() -> (r: ExportState)
    ensures
        r == ExportState::SizeAsked,
{
    ExportState::SizeAsked
}

/// The state that follows `state` on `reply`, and what the caller does next.
pub fn export_step(state: ExportState, reply: ExportReply) -> (r: (ExportState, ExportAction))
    ensures
        r == spec_export_step(state, reply),
{
    match state {
        ExportState::Done => (ExportState::Done, ExportAction::Nothing),
        ExportState::SizeAsked => match reply {
            ExportReply::Failed(status) => (
                ExportState::Done,
                ExportAction::Fail(ExportError::StoreError(status)),
            ),
            ExportReply::InsufficientSize(required) => (
                ExportState::FillAsked(required),
                ExportAction::Fill(required),
            ),
            ExportReply::Filled(written) => {
                if written == 0 {
                    (ExportState::Done, ExportAction::Deliver(0))
                } else {
                    (ExportState::Done, ExportAction::Fail(ExportError::InconsistentSnapshotSize))
                }
            },
        },
        ExportState::FillAsked(capacity) => match reply {
            ExportReply::Failed(status) => (
                ExportState::Done,
                ExportAction::Fail(ExportError::StoreError(status)),
            ),
            ExportReply::InsufficientSize(_) => (
                ExportState::Done,
                ExportAction::Fail(ExportError::InconsistentSnapshotSize),
            ),
            ExportReply::Filled(written) => {
                if written <= capacity {
                    (ExportState::Done, ExportAction::Deliver(written))
                } else {
                    (ExportState::Done, ExportAction::Fail(ExportError::InconsistentSnapshotSize))
                }
            },
        },
    }
}

/// The exchange is over after two replies at most, whatever they are; the
/// store is asked a second time only for the size that it named; and what is
/// delivered fits the buffer that the store was given.
pub proof fn lemma_export_ends(first: ExportReply, second: ExportReply)
    ensures
        ({
            let after_first = spec_export_step(ExportState::SizeAsked, first);
            let after_second = spec_export_step(after_first.0, second);
            &&& after_second.0 == ExportState::Done
            &&& after_first.1 matches ExportAction::Fill(n) ==> (first
                == ExportReply::InsufficientSize(n) && after_first.0 == ExportState::FillAsked(n))
            &&& after_first.1 matches ExportAction::Deliver(n) ==> n == 0
            &&& after_first.0 matches ExportState::FillAsked(capacity) ==> (after_second.1
                matches ExportAction::Deliver(n) ==> n <= capacity)
            &&& after_first.0 matches ExportState::FillAsked(_) ==> (second
                matches ExportReply::InsufficientSize(_) ==> after_second.1 == ExportAction::Fail(
                ExportError::InconsistentSnapshotSize,
            ))
        }),
{
}

} // verus!
