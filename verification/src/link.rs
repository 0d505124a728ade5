//! The state of the connection to the other viewers.

use vstd::prelude::*;

verus! {

/// Where a connection stands. It goes from `Disconnected` through
/// `Connecting` and `Open` to `Closed`; only while it is `Open` does a send
/// go out.
#[derive(Clone, Copy, Debug, PartialEq, Eq, Structural)]
pub enum LinkState {
    Disconnected,
    Connecting,
    Open,
    Closed,
}

/// What can happen to a connection.
#[derive(Clone, Copy, Debug, PartialEq, Eq, Structural)]
pub enum LinkEvent {
    /// The host asked for a connection, and the transport took the request.
    Requested,
    /// The transport reports that the connection stands.
    Opened,
    /// The transport reports that the connection is gone, or never came
    /// about.
    Lost,
}

impl LinkState {
    /// The state after `event`. A request starts a connection anew, whatever
    /// came before. A connection opens only while it is being made, and is
    /// lost only while it is being made or open; an event that comes at
    /// another time changes nothing.
    pub open spec fn spec_after(self, event: LinkEvent) -> LinkState {
        match event {
            LinkEvent::Requested => LinkState::Connecting,
            LinkEvent::Opened => if self == LinkState::Connecting {
                LinkState::Open
            } else {
                self
            },
            LinkEvent::Lost => if self == LinkState::Connecting || self == LinkState::Open {
                LinkState::Closed
            } else {
                self
            },
        }
    }

    #[verifier::when_used_as_spec(spec_after)]
    pub fn after(self, event: LinkEvent) -> (next: LinkState)
        ensures
            next == self.spec_after(event),
    {
        match event {
            LinkEvent::Requested => LinkState::Connecting,
            LinkEvent::Opened => match self {
                LinkState::Connecting => LinkState::Open,
                _ => self,
            },
            LinkEvent::Lost => match self {
                LinkState::Connecting | LinkState::Open => LinkState::Closed,
                _ => self,
            },
        }
    }

    /// Whether a send goes out in this state.
    pub open spec fn spec_can_send(self) -> bool {
        self == LinkState::Open
    }

    #[verifier::when_used_as_spec(spec_can_send)]
    pub fn can_send(self) -> (b: bool)
        ensures
            b == self.spec_can_send(),
    {
        match self {
            LinkState::Open => true,
            _ => false,
        }
    }

    /// A connection is open only after it was asked for and then came to
    /// stand: the one step that leads to `Open` starts in `Connecting` and
    /// takes the event `Opened`.
    pub proof fn lemma_open_only_from_connecting(self, event: LinkEvent)
        requires
            self != LinkState::Open,
            self.after(event) == LinkState::Open,
        ensures
            self == LinkState::Connecting,
            event == LinkEvent::Opened,
    {
    }

    /// No event leads back to `Disconnected`, and only a new request leads
    /// out of `Closed`.
    pub proof fn lemma_no_way_back(self, event: LinkEvent)
        ensures
            self != LinkState::Disconnected ==> self.after(event) != LinkState::Disconnected,
            self == LinkState::Closed && event != LinkEvent::Requested ==> self.after(event)
                == LinkState::Closed,
    {
    }
}

} // verus!
