//! Keeping the main window alive, and what closing it does.
use vstd::prelude::*;

verus! {

/// What happens when the user closes the window.
#[derive(Clone, Copy, PartialEq, Eq, Structural, Debug)]
pub enum CloseBehavior {
    Ask,
    Minimize,
    Close,
}

/// What a close request does.
#[derive(Clone, Copy, PartialEq, Eq, Structural, Debug)]
pub enum CloseAction {
    /// Save the window's geometry, mark the close as the user's, and close.
    SaveAndClose,
    /// Keep the window, minimised.
    Minimize,
}

/// What a close request does under a close behaviour.
pub fn handle_window_close(b: CloseBehavior) -> (r: CloseAction)
    ensures
        r == if b == CloseBehavior::Minimize {
            CloseAction::Minimize
        } else {
            CloseAction::SaveAndClose
        },
{
    match b {
        CloseBehavior::Close | CloseBehavior::Ask => CloseAction::SaveAndClose,
        CloseBehavior::Minimize => CloseAction::Minimize,
    }
}

/// Frames to wait before trying again to make a lost window.
pub const WINDOW_RETRY_FRAMES: u32 = 120;

/// What the window keeper does on a frame.
#[derive(Clone, Copy, PartialEq, Eq, Structural, Debug)]
pub enum WindowAction {
    /// The window is there.
    Nothing,
    /// The user closed it: the application ends.
    Exit,
    /// Waiting before another try.
    Wait,
    /// The system took it away: a new one is made from the saved geometry.
    Recreate,
}

/// The window keeper on one frame, from whether the main window exists,
/// whether the user closed it, and the frames left before another try;
/// gives the action and the frames left afterwards.
pub fn ensure_primary_window(window_exists: bool, closed_by_user: bool, countdown: u32) -> (r: (
    WindowAction,
    u32,
))
    ensures
        window_exists ==> r == (WindowAction::Nothing, 0u32),
        !window_exists && closed_by_user ==> r == (WindowAction::Exit, countdown),
        !window_exists && !closed_by_user && countdown > 0 ==> r == (
            WindowAction::Wait,
            (countdown - 1) as u32,
        ),
        !window_exists && !closed_by_user && countdown == 0 ==> r == (
            WindowAction::Recreate,
            WINDOW_RETRY_FRAMES,
        ),
{
    if window_exists {
        return (WindowAction::Nothing, 0);
    }
    if closed_by_user {
        return (WindowAction::Exit, countdown);
    }
    if countdown > 0 {
        return (WindowAction::Wait, countdown - 1);
    }
    (WindowAction::Recreate, WINDOW_RETRY_FRAMES)
}

/// The frames left after `n` frames without a window, starting from
/// `countdown`, when the user did not close it.
pub open spec fn countdown_after(countdown: int, n: nat) -> int
    decreases n,
{
    if n == 0 {
        countdown
    } else {
        let c = countdown_after(countdown, (n - 1) as nat);
        if c > 0 {
            c - 1
        } else {
            WINDOW_RETRY_FRAMES as int
        }
    }
}

/// After a new window is made, the keeper waits its full delay before the
/// next try: the frames left count down from the delay, one per frame.
pub proof fn lemma_retry_waits_between_tries(n: nat)
    requires
        n <= WINDOW_RETRY_FRAMES,
    ensures
        countdown_after(WINDOW_RETRY_FRAMES as int, n) == WINDOW_RETRY_FRAMES - n,
    decreases n,
{
    if n > 0 {
        lemma_retry_waits_between_tries((n - 1) as nat);
    }
}

} // verus!
