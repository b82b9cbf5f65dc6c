//! What goes wrong between peers.

use vstd::prelude::*;
use vstd::std_specs::convert::FromSpecImpl;
use vstd::string::StringExecFns;

verus! {

/// Why a peer was let go.
#[derive(Debug, Copy, Clone, PartialEq, Eq, Structural)]
pub enum DisconnectReason {
    DisconnectRequested,
    TCPError,
    BadProtocol,
    UselessPeer,
    TooManyPeers,
    DuplicatePeer,
    IncompatibleProtocol,
    NullIdentity,
    ClientQuit,
    UnexpectedIdentity,
    LocalIdentity,
    PingTimeout,
    Unknown,
}

impl DisconnectReason {
    /// The reason that a number on the wire stands for: the numbers 0 to 11
    /// stand for the first twelve reasons in their order, every other number
    /// for an unknown one.
    pub open spec fn of(n: u8) -> DisconnectReason {
        if n == 0 {
            DisconnectReason::DisconnectRequested
        } else if n == 1 {
            DisconnectReason::TCPError
        } else if n == 2 {
            DisconnectReason::BadProtocol
        } else if n == 3 {
            DisconnectReason::UselessPeer
        } else if n == 4 {
            DisconnectReason::TooManyPeers
        } else if n == 5 {
            DisconnectReason::DuplicatePeer
        } else if n == 6 {
            DisconnectReason::IncompatibleProtocol
        } else if n == 7 {
            DisconnectReason::NullIdentity
        } else if n == 8 {
            DisconnectReason::ClientQuit
        } else if n == 9 {
            DisconnectReason::UnexpectedIdentity
        } else if n == 10 {
            DisconnectReason::LocalIdentity
        } else if n == 11 {
            DisconnectReason::PingTimeout
        } else {
            DisconnectReason::Unknown
        }
    }

    /// The reason that a number on the wire stands for.
    pub fn from_u8(n: u8) -> (r: DisconnectReason)
        ensures
            r == DisconnectReason::of(n),
    {
        match n {
            0 => DisconnectReason::DisconnectRequested,
            1 => DisconnectReason::TCPError,
            2 => DisconnectReason::BadProtocol,
            3 => DisconnectReason::UselessPeer,
            4 => DisconnectReason::TooManyPeers,
            5 => DisconnectReason::DuplicatePeer,
            6 => DisconnectReason::IncompatibleProtocol,
            7 => DisconnectReason::NullIdentity,
            8 => DisconnectReason::ClientQuit,
            9 => DisconnectReason::UnexpectedIdentity,
            10 => DisconnectReason::LocalIdentity,
            11 => DisconnectReason::PingTimeout,
            _ => DisconnectReason::Unknown,
        }
    }

    /// The reason in words.
    pub open spec fn words(self) -> Seq<char> {
        match self {
            DisconnectReason::DisconnectRequested => "disconnect requested"@,
            DisconnectReason::TCPError => "TCP error"@,
            DisconnectReason::BadProtocol => "bad protocol"@,
            DisconnectReason::UselessPeer => "useless peer"@,
            DisconnectReason::TooManyPeers => "too many peers"@,
            DisconnectReason::DuplicatePeer => "duplicate peer"@,
            DisconnectReason::IncompatibleProtocol => "incompatible protocol"@,
            DisconnectReason::NullIdentity => "null identity"@,
            DisconnectReason::ClientQuit => "client quit"@,
            DisconnectReason::UnexpectedIdentity => "unexpected identity"@,
            DisconnectReason::LocalIdentity => "local identity"@,
            DisconnectReason::PingTimeout => "ping timeout"@,
            DisconnectReason::Unknown => "unknown"@,
        }
    }

    /// The reason in words.
    pub fn message(&self) -> (r: &'static str)
        ensures
            r@ == self.words(),
    {
        match *self {
            DisconnectReason::DisconnectRequested => "disconnect requested",
            DisconnectReason::TCPError => "TCP error",
            DisconnectReason::BadProtocol => "bad protocol",
            DisconnectReason::UselessPeer => "useless peer",
            DisconnectReason::TooManyPeers => "too many peers",
            DisconnectReason::DuplicatePeer => "duplicate peer",
            DisconnectReason::IncompatibleProtocol => "incompatible protocol",
            DisconnectReason::NullIdentity => "null identity",
            DisconnectReason::ClientQuit => "client quit",
            DisconnectReason::UnexpectedIdentity => "unexpected identity",
            DisconnectReason::LocalIdentity => "local identity",
            DisconnectReason::PingTimeout => "ping timeout",
            DisconnectReason::Unknown => "unknown",
        }
    }

    /// The reason in words, as a string of its own.
    pub fn to_string(&self) -> (r: String)
        ensures
            r@ == self.words(),
    {
        String::from_str(self.message())
    }
}

/// What goes wrong with keys and signatures.
#[derive(Debug, Copy, Clone, PartialEq, Eq, Structural)]
pub enum CryptoError {
    /// The secret key is not one.
    InvalidSecret,
    /// The public key is not one.
    InvalidPublic,
    /// The signature is not one.
    InvalidSignature,
    /// The message cannot be signed.
    InvalidMessage,
}

/// What goes wrong on a socket, in words.
#[derive(Debug)]
pub struct IoError {
    /// What went wrong.
    pub message: String,
}

/// What goes wrong between peers.
#[derive(Debug)]
pub enum NetworkError {
    /// The peer could not show who it is.
    Auth,
    /// The protocol is not known.
    BadProtocol,
    /// The message came too late.
    Expired,
    /// The peer is not there.
    PeerNotFound,
    /// The peer was let go.
    Disconnect(DisconnectReason),
    /// The socket failed.
    Io(IoError),
}

impl NetworkError {
    /// The words that say what went wrong, without the frame around them.
    pub open spec fn words(self) -> Seq<char> {
        match self {
            NetworkError::Auth => "Authentication failure"@,
            NetworkError::BadProtocol => "Bad protocol"@,
            NetworkError::Expired => "Expired message"@,
            NetworkError::PeerNotFound => "Peer not found"@,
            NetworkError::Disconnect(reason) => "Peer disconnected: "@ + reason.words(),
            NetworkError::Io(err) => "Socket I/O error: "@ + err.message@,
        }
    }

    /// The error in words: what went wrong, in a frame that tells that the
    /// network is meant.
    pub fn to_string(&self) -> (r: String)
        ensures
            r@ == "Network error ("@ + self.words() + ")"@,
    {
        let mut text = String::from_str("Network error (");
        match self {
            NetworkError::Auth => {
                text.append("Authentication failure");
            },
            NetworkError::BadProtocol => {
                text.append("Bad protocol");
            },
            NetworkError::Expired => {
                text.append("Expired message");
            },
            NetworkError::PeerNotFound => {
                text.append("Peer not found");
            },
            NetworkError::Disconnect(reason) => {
                text.append("Peer disconnected: ");
                text.append(reason.message());
                proof {
                    assert(text@ =~= "Network error ("@ + ("Peer disconnected: "@
                        + reason.words()));
                }
            },
            NetworkError::Io(err) => {
                text.append("Socket I/O error: ");
                text.append(err.message.as_str());
                proof {
                    assert(text@ =~= "Network error ("@ + ("Socket I/O error: "@ + err.message@));
                }
            },
        }
        text.append(")");
        text
    }
}

impl From<rlp::DecoderError> for NetworkError {
    fn from(_err: rlp::DecoderError) -> (r: NetworkError) {
        NetworkError::Auth
    }
}

impl FromSpecImpl<rlp::DecoderError> for NetworkError {
    open spec fn obeys_from_spec() -> bool {
        true
    }

    open spec fn from_spec(v: rlp::DecoderError) -> NetworkError {
        NetworkError::Auth
    }
}

impl From<IoError> for NetworkError {
    fn from(err: IoError) -> (r: NetworkError) {
        NetworkError::Io(err)
    }
}

impl FromSpecImpl<IoError> for NetworkError {
    open spec fn obeys_from_spec() -> bool {
        true
    }

    open spec fn from_spec(v: IoError) -> NetworkError {
        NetworkError::Io(v)
    }
}

impl From<CryptoError> for NetworkError {
    fn from(_err: CryptoError) -> (r: NetworkError) {
        NetworkError::Auth
    }
}

impl FromSpecImpl<CryptoError> for NetworkError {
    open spec fn obeys_from_spec() -> bool {
        true
    }

    open spec fn from_spec(v: CryptoError) -> NetworkError {
        NetworkError::Auth
    }
}

} // verus!
