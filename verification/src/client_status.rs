//! The states of the connection to the collaboration server, and what each
//! tells about signing in and being connected.
use vstd::prelude::*;

use crate::user::PeerId;

verus! {

/// The state of the connection to the server.
#[derive(Clone, Copy, PartialEq, Eq, Structural, Debug)]
pub enum Status {
    /// Not signed in.
    SignedOut,
    /// The server asks for a newer client.
    UpgradeRequired,
    /// Signing in.
    Authenticating,
    /// Signed in, not yet connected.
    Authenticated,
    /// Signing in failed.
    AuthenticationError,
    /// Connecting.
    Connecting,
    /// Connecting failed.
    ConnectionError,
    /// Connected as `peer_id` over the connection `connection_id`.
    Connected { peer_id: PeerId, connection_id: PeerId },
    /// The connection was lost.
    ConnectionLost,
    /// Signing in again after the connection was lost.
    Reauthenticating,
    /// Signed in again after the connection was lost.
    Reauthenticated,
    /// Connecting again.
    Reconnecting,
    /// Connecting again failed; the next attempt is at the given instant,
    /// in milliseconds of a monotonic clock.
    ReconnectionError { next_reconnection: u64 },
}

impl Status {
    /// Whether the client is connected.
    pub fn is_connected(&self) -> (r: bool)
        ensures
            r == (*self is Connected),
    {
        match self {
            Status::Connected { .. } => true,
            _ => false,
        }
    }

    /// Whether the client was connected and is getting the connection back.
    pub fn was_connected(&self) -> (r: bool)
        ensures
            r == (*self is ConnectionLost || *self is Reauthenticating || *self is Reauthenticated
                || *self is Reconnecting),
    {
        match self {
            Status::ConnectionLost | Status::Reauthenticating | Status::Reauthenticated | Status::Reconnecting => true,
            _ => false,
        }
    }

    /// Whether the client is or was connected.
    pub fn is_or_was_connected(&self) -> (r: bool)
        ensures
            r == (*self is Connected || *self is ConnectionLost || *self is Reauthenticating
                || *self is Reauthenticated || *self is Reconnecting),
    {
        self.is_connected() || self.was_connected()
    }

    /// Whether the client is signing in or connecting, for the first time or
    /// again.
    pub fn is_signing_in(&self) -> (r: bool)
        ensures
            r == (*self is Authenticating || *self is Reauthenticating || *self is Connecting
                || *self is Reconnecting),
    {
        match self {
            Status::Authenticating | Status::Reauthenticating | Status::Connecting | Status::Reconnecting => true,
            _ => false,
        }
    }

    /// Whether the client is signed out.
    pub fn is_signed_out(&self) -> (r: bool)
        ensures
            r == (*self is SignedOut || *self is UpgradeRequired),
    {
        match self {
            Status::SignedOut | Status::UpgradeRequired => true,
            _ => false,
        }
    }
}

/// The scheme of links that open something in the app.
pub const ZEN_URL_SCHEME: &'static str = "zen";

/// Something a link in the app's own scheme opens.
#[derive(Clone, PartialEq, Eq, Debug)]
pub enum ZenLink {
    /// A channel.
    Channel { channel_id: u64 },
    /// A channel's notes, at a heading if one is named.
    ChannelNotes { channel_id: u64, heading: Option<String> },
}

/// What a link opens: nothing, as this build has no channels.
pub fn parse_zen_link(link: &str) -> (r: Option<ZenLink>)
    ensures
        r is None,
{
    None
}

} // verus!
