use mtproto_satori::publisher::{
    album_of, authorize_token, ws_op_kind, ClientState, EventQueue, IdentifyOutcome, MediaGroups, SelfInfoCache,
    WsOpKind,
};
use mtproto_satori::types::{Event, Login, LoginStatus, WsIdentifyBody, WsOp};

fn event(kind: &str) -> Event {
    Event {
        sn: 99,
        event_type: kind.to_string(),
        timestamp: Some(7),
        login: Login {
            sn: 0,
            platform: Some("telegram".to_string()),
            user: None,
            status: LoginStatus::Online,
            adapter: "mtproto".to_string(),
            features: Some(Vec::new()),
        },
        argv: None,
        button: None,
        channel: None,
        guild: None,
        member: None,
        message: None,
        operator: None,
        role: None,
        user: None,
    }
}

#[test]
fn queue_numbers_events_and_keeps_the_newest() {
    let mut q = EventQueue::new(2);
    let a = q.send(event("a"));
    let b = q.send(event("b"));
    let c = q.send(event("c"));
    assert_eq!((a.sn, b.sn, c.sn), (0, 1, 2));
    assert_eq!(c.event_type, "c");
    assert_eq!(c.timestamp, Some(7));
    let after0: Vec<(u32, String)> = q.get_events_from(0).into_iter().map(|e| (e.sn, e.event_type)).collect();
    assert_eq!(after0, vec![(1, "b".to_string()), (2, "c".to_string())]);
    let after1: Vec<u32> = q.get_events_from(1).into_iter().map(|e| e.sn).collect();
    assert_eq!(after1, vec![2]);
    assert!(q.get_events_from(2).is_empty());
    assert!(q.get_events_from(u32::MAX).is_empty());
}

#[test]
fn queue_without_capacity_keeps_the_last() {
    let mut q = EventQueue::new(0);
    q.send(event("a"));
    q.send(event("b"));
    q.send(event("c"));
    let kept: Vec<u32> = q.get_events_from(0).into_iter().map(|e| e.sn).collect();
    assert_eq!(kept, vec![2]);
}

#[test]
fn replay_is_the_newest_suffix() {
    let mut q = EventQueue::new(10);
    for _ in 0..5 {
        q.send(event("m"));
    }
    let got: Vec<u32> = q.get_events_from(2).into_iter().map(|e| e.sn).collect();
    assert_eq!(got, vec![3, 4]);
}

#[test]
fn tokens() {
    assert!(authorize_token("", &None));
    assert!(authorize_token("", &Some("x".to_string())));
    assert!(authorize_token("secret", &Some("secret".to_string())));
    assert!(!authorize_token("secret", &Some("Secret".to_string())));
    assert!(!authorize_token("secret", &None));
}

#[test]
fn identify_once() {
    let mut s = ClientState::new();
    let bad = WsIdentifyBody { token: Some("no".to_string()), sn: None };
    assert!(matches!(s.identify("yes", &bad), IdentifyOutcome::Rejected));
    assert!(!s.authorized);
    let good = WsIdentifyBody { token: Some("yes".to_string()), sn: Some(4) };
    assert!(matches!(s.identify("yes", &good), IdentifyOutcome::Accepted { recover_from: Some(4) }));
    assert!(s.authorized);
    assert!(matches!(s.identify("yes", &good), IdentifyOutcome::AlreadyAuthorized));
}

#[test]
fn heartbeat() {
    let mut s = ClientState::new();
    assert_eq!(s.check_heartbeat(5), None);
    s.ping(1_000);
    assert_eq!(s.last_heartbeat, Some(1_000));
    assert_eq!(s.check_heartbeat(1_000), Some(30_000_000_000));
    assert_eq!(s.check_heartbeat(500), Some(30_000_000_000));
    assert_eq!(s.check_heartbeat(30_000_001_000), Some(0));
    assert_eq!(s.check_heartbeat(30_000_001_001), None);
}

#[test]
fn albums_come_out_by_id() {
    let mut g: MediaGroups<&str> = MediaGroups::new();
    g.add(7, 1, 12, "c");
    g.add(7, 2, 10, "a");
    g.add(8, 3, 1, "other");
    g.add(7, 4, 11, "b");
    g.add(7, 5, 11, "b2");
    assert!(g.settle(7, 4).is_none());
    assert_eq!(g.settle(7, 5), Some(vec!["a", "b", "b2", "c"]));
    assert!(g.settle(7, 5).is_none());
    assert_eq!(g.settle(8, 3), Some(vec!["other"]));
    assert!(g.settle(9, 0).is_none());
}

#[test]
fn albums_only_when_merging() {
    assert_eq!(album_of(100, Some(3)), Some(3));
    assert_eq!(album_of(0, Some(3)), None);
    assert_eq!(album_of(100, None), None);
}

#[test]
fn self_info_freshness() {
    let mut c = SelfInfoCache::new("me", 100);
    assert!(!c.should_update(100));
    assert!(!c.should_update(60_000_000_100));
    assert!(c.should_update(60_000_000_101));
    c.store("me2", 60_000_000_101);
    assert_eq!(*c.info(), "me2");
    assert!(!c.should_update(60_000_000_102));
    c.invalidate();
    assert!(c.should_update(60_000_000_102));
    assert_eq!(*c.info(), "me2");
}

#[test]
fn op_codes() {
    assert_eq!(WsOp::Ping.code(), 1);
    assert_eq!(WsOp::Pong.code(), 2);
    assert_eq!(WsOp::Event(event("x")).code(), 0);
    assert_eq!(WsOp::Identify(WsIdentifyBody { token: None, sn: None }).code(), 3);
    assert!(ws_op_kind(0) == Some(WsOpKind::Event));
    assert!(ws_op_kind(3) == Some(WsOpKind::Identify));
    assert!(ws_op_kind(5) == Some(WsOpKind::Meta));
    assert!(ws_op_kind(6) == None);
}

#[test]
fn recovery_after_five_sends_into_three() {
    let mut q = EventQueue::new(3);
    for _ in 0..5 {
        q.send(event("m"));
    }
    let from2: Vec<u32> = q.get_events_from(2).into_iter().map(|e| e.sn).collect();
    assert_eq!(from2, vec![3, 4]);
    let from0: Vec<u32> = q.get_events_from(0).into_iter().map(|e| e.sn).collect();
    assert_eq!(from0, vec![2, 3, 4]);
    let again: Vec<u32> = q.get_events_from(0).into_iter().map(|e| e.sn).collect();
    assert_eq!(again, vec![2, 3, 4]);
}

#[test]
fn album_merge_schedule() {
    let mut g: MediaGroups<&str> = MediaGroups::new();
    g.add(5, 10, 3, "third");
    g.add(5, 20, 1, "first");
    assert!(g.settle(5, 10).is_none());
    g.add(5, 30, 2, "second");
    assert!(g.settle(5, 20).is_none());
    assert_eq!(g.settle(5, 30), Some(vec!["first", "second", "third"]));
}
