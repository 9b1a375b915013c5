use vstd::prelude::*;

verus! {

/// The lifecycle states an OpenXR session reports.
#[derive(Debug, Clone, Copy, PartialEq, Eq, Structural)]
pub enum XrSessionState {
    Unknown,
    Idle,
    Ready,
    Synchronized,
    Visible,
    Focused,
    Stopping,
    LossPending,
    Exiting,
}

/// What the VR system does on a session state change.
#[derive(Debug, Clone, Copy, PartialEq, Eq, Structural)]
pub enum SessionAction {
    /// Begin the session with the stereo view configuration.
    Begin,
    /// End the session.
    End,
    /// Stop: the session is going away.
    Abort,
    /// Nothing to do.
    Continue,
}

/// The action taken while waiting for a frame: the session begins when it
/// is ready, ends when it stops, and frame rendering gives up when the
/// session exits or is about to be lost.
pub open spec fn frame_action(state: XrSessionState) -> SessionAction {
    match state {
        XrSessionState::Ready => SessionAction::Begin,
        XrSessionState::Stopping => SessionAction::End,
        XrSessionState::Exiting | XrSessionState::LossPending => SessionAction::Abort,
        _ => SessionAction::Continue,
    }
}

/// The action taken on a state change seen by the per-tick update.
pub open spec fn update_action(state: XrSessionState) -> SessionAction {
    match state {
        XrSessionState::Ready => SessionAction::Begin,
        XrSessionState::Stopping => SessionAction::End,
        _ => SessionAction::Continue,
    }
}

/// Decision made for a session state change observed before a frame begins.
pub fn frame_session_action(state: XrSessionState) -> (action: SessionAction)
    ensures
        action == frame_action(state),
{
    match state {
        XrSessionState::Ready => SessionAction::Begin,
        XrSessionState::Stopping => SessionAction::End,
        XrSessionState::Exiting | XrSessionState::LossPending => SessionAction::Abort,
        _ => SessionAction::Continue,
    }
}

/// Decision made for a session state change observed by the per-tick update.
pub fn update_session_action(state: XrSessionState) -> (action: SessionAction)
    ensures
        action == update_action(state),
{
    match state {
        XrSessionState::Ready => SessionAction::Begin,
        XrSessionState::Stopping => SessionAction::End,
        _ => SessionAction::Continue,
    }
}

/// The per-tick update never gives up, and otherwise decides as frame
/// rendering does.
pub proof fn update_agrees_with_frame(state: XrSessionState)
    ensures
        update_action(state) != SessionAction::Abort,
        frame_action(state) != SessionAction::Abort ==> update_action(state) == frame_action(state),
{
}

/// Before a frame, the session begins exactly when it is ready, ends
/// exactly when it is stopping, and rendering gives up exactly when the
/// session is exiting or about to be lost; in every other state (idle,
/// synchronized, visible, focused, unknown) the frame goes on.
pub proof fn frame_gives_up_only_when_exiting(state: XrSessionState)
    ensures
        (frame_action(state) == SessionAction::Begin) == (state == XrSessionState::Ready),
        (frame_action(state) == SessionAction::End) == (state == XrSessionState::Stopping),
        (frame_action(state) == SessionAction::Abort) == (state == XrSessionState::Exiting || state
            == XrSessionState::LossPending),
        (frame_action(state) == SessionAction::Continue) == (state == XrSessionState::Unknown || state
            == XrSessionState::Idle || state == XrSessionState::Synchronized || state
            == XrSessionState::Visible || state == XrSessionState::Focused),
{
}

} // verus!
