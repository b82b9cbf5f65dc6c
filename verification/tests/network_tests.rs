use ethexec::network_error::{CryptoError, DisconnectReason, IoError, NetworkError};
use rlp::DecoderError;

#[test]
fn test_errors() {
    assert_eq!(DisconnectReason::ClientQuit, DisconnectReason::from_u8(8));
    let mut r = DisconnectReason::DisconnectRequested;
    for i in 0..20 {
        r = DisconnectReason::from_u8(i);
    }
    assert_eq!(DisconnectReason::Unknown, r);

    match <NetworkError as From<DecoderError>>::from(DecoderError::RlpIsTooBig) {
        NetworkError::Auth => {}
        _ => panic!("Unexpeceted error"),
    }

    match <NetworkError as From<CryptoError>>::from(CryptoError::InvalidSecret) {
        NetworkError::Auth => {}
        _ => panic!("Unexpeceted error"),
    }
}

#[test]
fn every_number_has_its_reason() {
    let expected = [
        DisconnectReason::DisconnectRequested,
        DisconnectReason::TCPError,
        DisconnectReason::BadProtocol,
        DisconnectReason::UselessPeer,
        DisconnectReason::TooManyPeers,
        DisconnectReason::DuplicatePeer,
        DisconnectReason::IncompatibleProtocol,
        DisconnectReason::NullIdentity,
        DisconnectReason::ClientQuit,
        DisconnectReason::UnexpectedIdentity,
        DisconnectReason::LocalIdentity,
        DisconnectReason::PingTimeout,
    ];
    for (n, reason) in expected.iter().enumerate() {
        assert_eq!(DisconnectReason::from_u8(n as u8), *reason);
    }
    assert_eq!(DisconnectReason::from_u8(12), DisconnectReason::Unknown);
    assert_eq!(DisconnectReason::from_u8(255), DisconnectReason::Unknown);
}

#[test]
fn errors_in_words() {
    assert_eq!(DisconnectReason::TCPError.to_string(), "TCP error");
    assert_eq!(DisconnectReason::PingTimeout.message(), "ping timeout");
    assert_eq!(DisconnectReason::Unknown.to_string(), "unknown");
    assert_eq!(NetworkError::Auth.to_string(), "Network error (Authentication failure)");
    assert_eq!(NetworkError::BadProtocol.to_string(), "Network error (Bad protocol)");
    assert_eq!(NetworkError::Expired.to_string(), "Network error (Expired message)");
    assert_eq!(NetworkError::PeerNotFound.to_string(), "Network error (Peer not found)");
    assert_eq!(
        NetworkError::Disconnect(DisconnectReason::UselessPeer).to_string(),
        "Network error (Peer disconnected: useless peer)"
    );
    let io = NetworkError::from(IoError { message: "broken pipe".to_string() });
    assert_eq!(io.to_string(), "Network error (Socket I/O error: broken pipe)");
}
