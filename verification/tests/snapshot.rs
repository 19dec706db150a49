use hii_database::snapshot::{
    export_start, export_step, ExportAction, ExportError, ExportReply, ExportState,
};

#[test]
fn snapshot_is_asked_for_twice_and_delivered() {
    let state = export_start();
    assert_eq!(state, ExportState::SizeAsked);
    let (state, action) = export_step(state, ExportReply::InsufficientSize(300));
    assert_eq!(state, ExportState::FillAsked(300));
    assert_eq!(action, ExportAction::Fill(300));
    let (state, action) = export_step(state, ExportReply::Filled(300));
    assert_eq!(state, ExportState::Done);
    assert_eq!(action, ExportAction::Deliver(300));
}

#[test]
fn shorter_snapshot_than_asked_for_is_delivered() {
    let (state, action) = export_step(ExportState::FillAsked(300), ExportReply::Filled(120));
    assert_eq!(state, ExportState::Done);
    assert_eq!(action, ExportAction::Deliver(120));
}

#[test]
fn second_insufficient_size_is_an_inconsistency() {
    let (state, action) =
        export_step(ExportState::FillAsked(300), ExportReply::InsufficientSize(400));
    assert_eq!(state, ExportState::Done);
    assert_eq!(action, ExportAction::Fail(ExportError::InconsistentSnapshotSize));
}

#[test]
fn snapshot_larger_than_the_buffer_is_an_inconsistency() {
    let (state, action) = export_step(ExportState::FillAsked(300), ExportReply::Filled(301));
    assert_eq!(state, ExportState::Done);
    assert_eq!(action, ExportAction::Fail(ExportError::InconsistentSnapshotSize));
    let (state, action) = export_step(ExportState::SizeAsked, ExportReply::Filled(1));
    assert_eq!(state, ExportState::Done);
    assert_eq!(action, ExportAction::Fail(ExportError::InconsistentSnapshotSize));
}

#[test]
fn empty_snapshot_is_delivered_at_once() {
    let (state, action) = export_step(ExportState::SizeAsked, ExportReply::Filled(0));
    assert_eq!(state, ExportState::Done);
    assert_eq!(action, ExportAction::Deliver(0));
}

#[test]
fn failure_of_the_store_is_passed_on() {
    let (state, action) = export_step(ExportState::SizeAsked, ExportReply::Failed(7));
    assert_eq!(state, ExportState::Done);
    assert_eq!(action, ExportAction::Fail(ExportError::StoreError(7)));
    let (state, action) = export_step(ExportState::FillAsked(10), ExportReply::Failed(9));
    assert_eq!(state, ExportState::Done);
    assert_eq!(action, ExportAction::Fail(ExportError::StoreError(9)));
}

#[test]
fn nothing_follows_the_end_of_the_exchange() {
    for reply in [
        ExportReply::InsufficientSize(5),
        ExportReply::Filled(5),
        ExportReply::Failed(5),
    ] {
        let (state, action) = export_step(ExportState::Done, reply);
        assert_eq!(state, ExportState::Done);
        assert_eq!(action, ExportAction::Nothing);
    }
}

#[test]
fn exchange_ends_after_two_replies() {
    let replies = [
        ExportReply::InsufficientSize(0),
        ExportReply::InsufficientSize(64),
        ExportReply::Filled(0),
        ExportReply::Filled(64),
        ExportReply::Filled(65),
        ExportReply::Failed(3),
    ];
    for first in replies {
        for second in replies {
            let (state, _) = export_step(export_start(), first);
            let (state, _) = export_step(state, second);
            assert_eq!(state, ExportState::Done);
        }
    }
}
