//! Optional remote close when the local terminal hangs up.
use vstd::prelude::*;

verus! {

/// Whether a close was asked for, and whether it was carried out.
#[derive(Debug, Clone, Copy, PartialEq, Eq, Structural)]
pub struct HangupClose {
    pub requested: bool,
    pub completed: bool,
}

/// What the client loop does about a hangup.
#[derive(Debug, Clone, Copy, PartialEq, Eq, Structural)]
pub enum HangupStep {
    Continue,
    /// Leave the loop, after a close packet where the connection stands. That
    /// the packet fails does not matter: the local terminal is going away.
    Leave { send_close: bool },
}

impl HangupClose {
    /// Nothing is asked for.
    pub fn disabled() -> (hangup: Self)
        ensures
            hangup == (HangupClose { requested: false, completed: false }),
    {
        HangupClose { requested: false, completed: false }
    }

    /// Asks the client loop to close.
    pub fn request(&mut self)
        ensures
            *final(self) == (HangupClose { requested: true, ..*old(self) }),
    {
        self.requested = true;
    }

    pub fn requested(&self) -> (r: bool)
        ensures
            r == self.requested,
    {
        self.requested
    }

    pub fn completed(&self) -> (r: bool)
        ensures
            r == self.completed,
    {
        self.completed
    }
}

/// When a hangup close is pending, close the session and leave the loop. Once
/// asked for, it is carried out whether or not the connection stands.
pub fn take_hangup_close(connected: bool, hangup: &mut HangupClose) -> (step: HangupStep)
    ensures
        if old(hangup).requested {
            step == HangupStep::Leave { send_close: connected } && *final(hangup) == (HangupClose {
                completed: true,
                ..*old(hangup)
            })
        } else {
            step == HangupStep::Continue && *final(hangup) == *old(hangup)
        },
{
    if !hangup.requested {
        return HangupStep::Continue;
    }
    hangup.completed = true;
    HangupStep::Leave { send_close: connected }
}

/// A hangup that was asked for is acted on at the next look and not before:
/// the session is left, and told so while it is connected.
pub proof fn hangups_end_the_session()
    ensures
        forall|connected: bool, hangup: &mut HangupClose, step: HangupStep|
            #[trigger] call_ensures(take_hangup_close, (connected, hangup), step) ==> (
            hangup.requested <==> step is Leave) && (hangup.requested ==> final(hangup).completed
                && step == HangupStep::Leave { send_close: connected }) && (!hangup.requested
                ==> final(hangup).completed == hangup.completed) && final(hangup).requested
                == hangup.requested,
        forall|hangup: &mut HangupClose, r: ()|
            #[trigger] call_ensures(HangupClose::request, (hangup,), r) ==> final(hangup).requested
                && final(hangup).completed == hangup.completed,
{
}

} // verus!
