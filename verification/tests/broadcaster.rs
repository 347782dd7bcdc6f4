use borui::ws::{text_requests_pong, WsBroadcaster, WsMessage};

#[test]
fn broadcast_reaches_live_subscribers() {
    let rt = tokio::runtime::Runtime::new().unwrap();
    rt.block_on(async {
        let mut b = WsBroadcaster::new();
        let (tx1, mut rx1) = tokio::sync::mpsc::unbounded_channel::<WsMessage>();
        let (tx2, mut rx2) = tokio::sync::mpsc::unbounded_channel::<WsMessage>();
        b.add_client(1, tx1);
        b.add_client(2, tx2);
        let pruned = b.broadcast(&WsMessage::Pong);
        assert!(pruned.is_empty());
        assert!(matches!(rx1.try_recv().unwrap(), WsMessage::Pong));
        assert!(matches!(rx2.try_recv().unwrap(), WsMessage::Pong));
    });
}

#[test]
fn failed_subscriber_is_pruned_within_the_same_broadcast() {
    let rt = tokio::runtime::Runtime::new().unwrap();
    rt.block_on(async {
        let mut b = WsBroadcaster::new();
        let (tx1, mut rx1) = tokio::sync::mpsc::unbounded_channel::<WsMessage>();
        let (tx2, rx2) = tokio::sync::mpsc::unbounded_channel::<WsMessage>();
        b.add_client(1, tx1);
        b.add_client(2, tx2);
        drop(rx2);
        let pruned = b.broadcast(&WsMessage::ServerStatus("{\"id\":1}".to_string()));
        assert_eq!(pruned, vec![2]);
        // The dead subscriber is absent from the set on the next broadcast.
        let pruned_again = b.broadcast(&WsMessage::Pong);
        assert!(pruned_again.is_empty());
        assert!(matches!(
            rx1.try_recv().unwrap(),
            WsMessage::ServerStatus(_)
        ));
        assert!(matches!(rx1.try_recv().unwrap(), WsMessage::Pong));
    });
}

#[test]
fn removed_subscriber_gets_no_more_messages() {
    let rt = tokio::runtime::Runtime::new().unwrap();
    rt.block_on(async {
        let mut b = WsBroadcaster::new();
        let (tx, mut rx) = tokio::sync::mpsc::unbounded_channel::<WsMessage>();
        b.add_client(9, tx);
        b.remove_client(9);
        let pruned = b.broadcast(&WsMessage::Pong);
        assert!(pruned.is_empty());
        assert!(rx.try_recv().is_err());
    });
}

#[test]
fn ping_frames_are_recognized() {
    assert!(text_requests_pong("{\"type\":\"ping\"}"));
    assert!(text_requests_pong("please \"ping\" me"));
    assert!(!text_requests_pong("{\"type\":\"subscribe\"}"));
    assert!(!text_requests_pong("ping"));
}
