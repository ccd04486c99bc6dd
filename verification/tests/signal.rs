use clawmesh::signal::{
    build_ice_config, default_ice_servers, recv_outcome, send_outcome, signal_source,
    signal_target, signaling_pair, SignalingChannel,
};
use clawmesh::{IceCandidate, IceServer, SessionAnswer, SessionOffer, SignalError, SignalMessage};

#[test]
fn default_ice_servers_returns_stun() {
    let servers = default_ice_servers();
    assert!(!servers.is_empty());
    for s in &servers {
        assert!(s.urls[0].starts_with("stun:"));
        assert!(s.username.is_none());
    }
}

#[test]
fn build_ice_config_merges_turn() {
    let turn = vec![IceServer {
        urls: vec!["turn:my-turn.example.com:3478".into()],
        username: Some("user".into()),
        credential: Some("pass".into()),
    }];
    let config = build_ice_config(turn);
    assert!(config.len() >= 3);
    assert!(config.last().unwrap().urls[0].starts_with("turn:"));
}

#[test]
fn signal_target_and_source() {
    let msg = SignalMessage::Offer(SessionOffer {
        from: "agent:alice".into(),
        to: "agent:bob".into(),
        sdp: "sdp".into(),
    });
    assert_eq!(signal_target(&msg), "agent:bob");
    assert_eq!(signal_source(&msg), "agent:alice");
}

#[test]
fn every_message_names_its_peers() {
    let answer = SignalMessage::Answer(SessionAnswer {
        from: "a".into(),
        to: "b".into(),
        sdp: "s".into(),
    });
    let candidate = SignalMessage::IceCandidate(IceCandidate {
        from: "c".into(),
        to: "d".into(),
        candidate: "x".into(),
        sdp_m_line_index: 1,
    });
    assert_eq!(signal_source(&answer), "a");
    assert_eq!(signal_target(&answer), "b");
    assert_eq!(signal_source(&candidate), "c");
    assert_eq!(signal_target(&candidate), "d");
}

#[test]
fn default_servers_come_first() {
    let config = build_ice_config(vec![]);
    assert_eq!(config.len(), 2);
    assert_eq!(config[0].urls, vec!["stun:stun.l.google.com:19302"]);
    assert_eq!(config[1].urls, vec!["stun:stun1.l.google.com:19302"]);
}

#[test]
fn closed_channels_are_errors() {
    assert!(send_outcome(true).is_ok());
    assert!(matches!(send_outcome(false), Err(SignalError::ChannelClosed)));
    assert!(matches!(recv_outcome(None), Err(SignalError::ChannelClosed)));
    assert_eq!(SignalError::ChannelClosed.to_string(), "signaling channel closed");
    assert_eq!(SignalError::UnknownPeer("p".into()).to_string(), "unknown peer: p");
    let msg = SignalMessage::Offer(SessionOffer {
        from: "a".into(),
        to: "b".into(),
        sdp: "s".into(),
    });
    assert_eq!(signal_target(&recv_outcome(Some(msg)).unwrap()), "b");
}

fn send(channel: &SignalingChannel, msg: SignalMessage) -> Result<(), SignalError> {
    send_outcome(channel.sender().try_send(msg).is_ok())
}

fn recv(channel: &mut SignalingChannel) -> Result<SignalMessage, SignalError> {
    recv_outcome(channel.receiver_mut().try_recv().ok())
}

#[test]
fn signaling_pair_roundtrip() {
    let (mut a, mut b) = signaling_pair();
    let offer = SignalMessage::Offer(SessionOffer {
        from: "agent:alice".into(),
        to: "agent:bob".into(),
        sdp: "v=0\r\n...".into(),
    });
    send(&a, offer.clone()).unwrap();
    let received = recv(&mut b).unwrap();
    match received {
        SignalMessage::Offer(o) => {
            assert_eq!(o.from, "agent:alice");
            assert_eq!(o.to, "agent:bob");
        }
        _ => panic!("expected Offer"),
    }
    let answer = SignalMessage::Answer(SessionAnswer {
        from: "agent:bob".into(),
        to: "agent:alice".into(),
        sdp: "v=0\r\nanswer".into(),
    });
    send(&b, answer).unwrap();
    let received = recv(&mut a).unwrap();
    match received {
        SignalMessage::Answer(a) => {
            assert_eq!(a.from, "agent:bob");
            assert_eq!(a.to, "agent:alice");
        }
        _ => panic!("expected Answer"),
    }
}

#[test]
fn ice_candidate_roundtrip() {
    let (a, mut b) = signaling_pair();
    let candidate = SignalMessage::IceCandidate(IceCandidate {
        from: "agent:alice".into(),
        to: "agent:bob".into(),
        candidate: "candidate:1 1 UDP 2122252543 192.168.1.1 50000 typ host".into(),
        sdp_m_line_index: 0,
    });
    send(&a, candidate).unwrap();
    let received = recv(&mut b).unwrap();
    match received {
        SignalMessage::IceCandidate(c) => {
            assert_eq!(c.from, "agent:alice");
            assert!(c.candidate.contains("typ host"));
            assert_eq!(c.sdp_m_line_index, 0);
        }
        _ => panic!("expected IceCandidate"),
    }
}

#[test]
fn a_single_channel_receives_what_it_sends() {
    let (sender, mut channel) = SignalingChannel::new(1);
    let msg = SignalMessage::Offer(SessionOffer {
        from: "a".into(),
        to: "b".into(),
        sdp: "s".into(),
    });
    assert!(sender.same_channel(&channel.sender()));
    sender.try_send(msg.clone()).unwrap();
    assert!(send(&channel, msg).is_err());
    assert_eq!(signal_target(&recv(&mut channel).unwrap()), "b");
    assert!(recv(&mut channel).is_err());
}
