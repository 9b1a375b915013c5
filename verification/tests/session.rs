use wgpu_3d_viewer::session::{frame_session_action, update_session_action, SessionAction, XrSessionState};

#[test]
fn frame_session_actions() {
    assert_eq!(frame_session_action(XrSessionState::Ready), SessionAction::Begin);
    assert_eq!(frame_session_action(XrSessionState::Stopping), SessionAction::End);
    assert_eq!(frame_session_action(XrSessionState::Exiting), SessionAction::Abort);
    assert_eq!(frame_session_action(XrSessionState::LossPending), SessionAction::Abort);
    assert_eq!(frame_session_action(XrSessionState::Focused), SessionAction::Continue);
    assert_eq!(frame_session_action(XrSessionState::Idle), SessionAction::Continue);
}

#[test]
fn update_session_actions() {
    assert_eq!(update_session_action(XrSessionState::Ready), SessionAction::Begin);
    assert_eq!(update_session_action(XrSessionState::Stopping), SessionAction::End);
    assert_eq!(update_session_action(XrSessionState::Exiting), SessionAction::Continue);
    assert_eq!(update_session_action(XrSessionState::LossPending), SessionAction::Continue);
    assert_eq!(update_session_action(XrSessionState::Visible), SessionAction::Continue);
}
